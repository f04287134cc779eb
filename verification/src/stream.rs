//! What holds of whole sequences of events.
use crate::events::{open_elements, Event, LinkType, Tag};
use crate::state_write::{
    all_possible, border, border_width, link_index, link_ref, link_ref_lines, link_refs, nest,
    possible, run, step, styled, InlineAttrs, InlineState, Link, LinkBuffer, ListItemType,
    NestedState, State,
};
use crate::style::{Colour, Style};
use crate::terminal::TerminalCapabilities;
use crate::text::{decimal, newline, repeated, right_aligned};
use crate::Settings;
use syntect::highlighting::Theme;
use vstd::prelude::*;

verus! {

/// An event that can come changes the depth of the state as it changes the
/// number of open elements: a start nests the state once more, an end
/// returns to the state around it, and any other event stays where it is.
pub proof fn lemma_step_follows_nesting(
    settings: Settings,
    theme: Theme,
    base_dir: Seq<char>,
    state: State,
    data: LinkBuffer,
    event: Event,
)
    requires
        possible(settings, state, data, event),
    ensures
        step(settings, theme, base_dir, state, data, event).state.depth() == state.depth()
            + event.nesting_change(),
{
    reveal_with_fuel(State::depth, 3);
}

/// No event changes the style or the indentation of a state that is
/// there: a start adds a state with its own, an end takes the innermost
/// state away, and any other event leaves them all as they are.
pub proof fn lemma_step_keeps_looks(
    settings: Settings,
    theme: Theme,
    base_dir: Seq<char>,
    state: State,
    data: LinkBuffer,
    event: Event,
)
    requires
        possible(settings, state, data, event),
    ensures
        ({
            let next = step(settings, theme, base_dir, state, data, event).state;
            match event {
                Event::Start(_) => next.looks().drop_last() == state.looks(),
                Event::End(_) => next.looks() == state.looks().drop_last(),
                _ => next.looks() == state.looks(),
            }
        }),
{
    reveal_with_fuel(State::looks, 3);
    let next = step(settings, theme, base_dir, state, data, event).state;
    match event {
        Event::Start(_) => {
            assert(next.looks().drop_last() =~= state.looks());
        },
        Event::End(_) => {
            assert(next.looks() =~= state.looks().drop_last());
        },
        _ => {
            assert(next.looks() =~= state.looks());
        },
    }
}

/// Events that can all come change the depth of the state by the number of
/// elements that they leave open.
pub proof fn lemma_run_follows_nesting(
    settings: Settings,
    theme: Theme,
    base_dir: Seq<char>,
    state: State,
    data: LinkBuffer,
    events: Seq<Event>,
)
    requires
        all_possible(settings, theme, base_dir, state, data, events),
    ensures
        run(settings, theme, base_dir, state, data, events).state.depth() == state.depth()
            + open_elements(events),
    decreases events.len(),
{
    if events.len() > 0 {
        let first = step(settings, theme, base_dir, state, data, events[0]);
        lemma_step_follows_nesting(settings, theme, base_dir, state, data, events[0]);
        lemma_run_follows_nesting(settings, theme, base_dir, first.state, first.data, events.skip(1));
    }
}

/// A sequence of events that can all come and that closes each element that
/// it opens ends at top level.
pub proof fn lemma_balanced_events_end_at_top_level(
    settings: Settings,
    theme: Theme,
    base_dir: Seq<char>,
    events: Seq<Event>,
)
    requires
        all_possible(settings, theme, base_dir, State::initial(), LinkBuffer::initial(), events),
        open_elements(events) == 0,
    ensures
        run(
            settings,
            theme,
            base_dir,
            State::initial(),
            LinkBuffer::initial(),
            events,
        ).state is TopLevel,
        crate::well_formed(settings, theme, base_dir, events),
{
    lemma_run_follows_nesting(
        settings,
        theme,
        base_dir,
        State::initial(),
        LinkBuffer::initial(),
        events,
    );
}

/// `count` starts of emphasis, one in the other.
pub open spec fn emphasis_starts(count: nat) -> Seq<Event> {
    Seq::new(count, |i: int| Event::Start(Tag::Emphasis))
}

/// The style of the text in a state, where the state is inline text.
pub open spec fn inline_style(state: State) -> Option<Style> {
    match state {
        State::NestedState(_, NestedState::Inline(_, attrs)) => Some(attrs.style),
        _ => None,
    }
}

/// Emphasis in emphasis is upright again: from inline text whose italics
/// are `italic`, `count` nested starts of emphasis can all come and lead to
/// inline text that is italic where `italic` differs from whether `count`
/// is odd. No other attribute of the style changes, and nothing is
/// written.
pub proof fn lemma_emphasis_toggles_italics(
    settings: Settings,
    theme: Theme,
    base_dir: Seq<char>,
    return_to: State,
    mode: InlineState,
    attrs: InlineAttrs,
    data: LinkBuffer,
    count: nat,
)
    ensures
        all_possible(
            settings,
            theme,
            base_dir,
            nest(return_to, NestedState::Inline(mode, attrs)),
            data,
            emphasis_starts(count),
        ),
        inline_style(
            run(
                settings,
                theme,
                base_dir,
                nest(return_to, NestedState::Inline(mode, attrs)),
                data,
                emphasis_starts(count),
            ).state,
        ) == Some(attrs.style.with_italic(attrs.style.is_italic != (count % 2 == 1))),
        run(
            settings,
            theme,
            base_dir,
            nest(return_to, NestedState::Inline(mode, attrs)),
            data,
            emphasis_starts(count),
        ).output == Seq::<char>::empty(),
    decreases count,
{
    let state = nest(return_to, NestedState::Inline(mode, attrs));
    let events = emphasis_starts(count);
    if count > 0 {
        let first = step(settings, theme, base_dir, state, data, events[0]);
        let toggled = InlineAttrs {
            style: attrs.style.with_italic(!attrs.style.is_italic),
            indent: attrs.indent,
        };
        assert(first.state == nest(state, NestedState::Inline(InlineState::InlineText, toggled)));
        assert(events.skip(1) =~= emphasis_starts((count - 1) as nat));
        lemma_emphasis_toggles_italics(
            settings,
            theme,
            base_dir,
            state,
            InlineState::InlineText,
            toggled,
            data,
            (count - 1) as nat,
        );
        let end = run(settings, theme, base_dir, state, data, events);
        assert(end.output =~= Seq::<char>::empty());
    }
}

/// Emphasis parity: in upright inline text, text in an odd number of nested
/// emphases is italic, and text in an even number of them is upright.
pub proof fn lemma_emphasis_parity(
    settings: Settings,
    theme: Theme,
    base_dir: Seq<char>,
    return_to: State,
    mode: InlineState,
    attrs: InlineAttrs,
    data: LinkBuffer,
    count: nat,
)
    requires
        !attrs.style.is_italic,
    ensures
        inline_style(
            run(
                settings,
                theme,
                base_dir,
                nest(return_to, NestedState::Inline(mode, attrs)),
                data,
                emphasis_starts(count),
            ).state,
        ) matches Some(style) && style.is_italic == (count % 2 == 1),
{
    lemma_emphasis_toggles_italics(settings, theme, base_dir, return_to, mode, attrs, data, count);
}

/// Whether an event in a state adds a link to the buffer: it ends a link
/// that is no autolink, in plain inline text.
pub open spec fn adds_link(state: State, event: Event) -> bool {
    &&& state matches State::NestedState(_, NestedState::Inline(InlineState::InlineText, _))
    &&& event matches Event::End(Tag::Link(link_type, _, _))
    &&& link_type != LinkType::Autolink
}

/// The number of links that a sequence of events adds to the buffer.
pub open spec fn links_added(
    settings: Settings,
    theme: Theme,
    base_dir: Seq<char>,
    state: State,
    data: LinkBuffer,
    events: Seq<Event>,
) -> nat
    decreases events.len(),
{
    if events.len() == 0 {
        0
    } else {
        let first = step(settings, theme, base_dir, state, data, events[0]);
        let added: nat = if adds_link(state, events[0]) {
            1
        } else {
            0
        };
        added + links_added(settings, theme, base_dir, first.state, first.data, events.skip(1))
    }
}

/// An event that can come and adds a link gives the link the number of the
/// next link, writes that number in place of the link, and counts on by
/// one. Any other event leaves the number of the next link as it is.
pub proof fn lemma_step_counts_links(
    settings: Settings,
    theme: Theme,
    base_dir: Seq<char>,
    state: State,
    data: LinkBuffer,
    event: Event,
)
    requires
        possible(settings, state, data, event),
    ensures
        adds_link(state, event) ==> {
            let next = step(settings, theme, base_dir, state, data, event);
            &&& next.data.next_link == data.next_link + 1
            &&& next.data.pending_links.len() == data.pending_links.len() + 1
            &&& next.data.pending_links.last().index == data.next_link
            &&& inline_style(state) matches Some(style) && next.output == styled(
                settings.terminal_capabilities,
                style.with_fg(Colour::Blue),
                link_index(data.next_link),
            )
        },
        !adds_link(state, event) ==> step(
            settings,
            theme,
            base_dir,
            state,
            data,
            event,
        ).data.next_link == data.next_link,
{
}

/// Whether an event in a state writes the links that wait: the start of a
/// heading and a rule do, at top level.
pub open spec fn flushes_links(state: State, event: Event) -> bool {
    state is TopLevel && (event is Rule || event matches Event::Start(Tag::Heading(_)))
}

/// The links that wait only grow, one link at a time at the end, but for
/// the start of a heading and for a rule at top level, which write them all
/// before anything else and leave none. The number of the next link never
/// goes back.
pub proof fn lemma_step_appends_or_flushes(
    settings: Settings,
    theme: Theme,
    base_dir: Seq<char>,
    state: State,
    data: LinkBuffer,
    event: Event,
)
    requires
        possible(settings, state, data, event),
    ensures
        ({
            let next = step(settings, theme, base_dir, state, data, event);
            let flushes = flushes_links(state, event);
            &&& next.data.next_link >= data.next_link
            &&& flushes ==> next.data.pending_links == Seq::<Link>::empty() && link_refs(
                settings.terminal_capabilities,
                data.pending_links,
            ).is_prefix_of(next.output)
            &&& !flushes && !adds_link(state, event) ==> next.data.pending_links
                == data.pending_links
            &&& adds_link(state, event) ==> next.data.pending_links.drop_last()
                == data.pending_links
        }),
{
    let next = step(settings, theme, base_dir, state, data, event);
    if adds_link(state, event) {
        assert(next.data.pending_links.drop_last() =~= data.pending_links);
    }
}

/// Events that can all come count the links on by the number of links that
/// they add: no number is left out, and none is used twice.
pub proof fn lemma_run_counts_links(
    settings: Settings,
    theme: Theme,
    base_dir: Seq<char>,
    state: State,
    data: LinkBuffer,
    events: Seq<Event>,
)
    requires
        all_possible(settings, theme, base_dir, state, data, events),
    ensures
        run(settings, theme, base_dir, state, data, events).data.next_link == data.next_link
            + links_added(settings, theme, base_dir, state, data, events),
    decreases events.len(),
{
    if events.len() > 0 {
        let first = step(settings, theme, base_dir, state, data, events[0]);
        lemma_step_counts_links(settings, theme, base_dir, state, data, events[0]);
        lemma_run_counts_links(settings, theme, base_dir, first.state, first.data, events.skip(1));
    }
}

/// The link that is added after `events`, from the start of a document, has
/// the index of one more than the number of links added before it, however
/// deep it stands in quotes and lists.
pub proof fn lemma_nth_link_has_index_n(
    settings: Settings,
    theme: Theme,
    base_dir: Seq<char>,
    events: Seq<Event>,
    event: Event,
)
    requires
        all_possible(settings, theme, base_dir, State::initial(), LinkBuffer::initial(), events),
        ({
            let before = run(
                settings,
                theme,
                base_dir,
                State::initial(),
                LinkBuffer::initial(),
                events,
            );
            &&& possible(settings, before.state, before.data, event)
            &&& adds_link(before.state, event)
        }),
    ensures
        ({
            let before = run(
                settings,
                theme,
                base_dir,
                State::initial(),
                LinkBuffer::initial(),
                events,
            );
            let count = links_added(
                settings,
                theme,
                base_dir,
                State::initial(),
                LinkBuffer::initial(),
                events,
            );
            let next = step(settings, theme, base_dir, before.state, before.data, event);
            &&& next.data.pending_links.last().index == count + 1
            &&& inline_style(before.state) matches Some(style) && next.output == styled(
                settings.terminal_capabilities,
                style.with_fg(Colour::Blue),
                link_index((count + 1) as u16),
            )
        }),
{
    let before = run(settings, theme, base_dir, State::initial(), LinkBuffer::initial(), events);
    lemma_run_counts_links(
        settings,
        theme,
        base_dir,
        State::initial(),
        LinkBuffer::initial(),
        events,
    );
    lemma_step_counts_links(settings, theme, base_dir, before.state, before.data, event);
}

/// Two renderings of the same events with the same settings, theme and
/// base directory, each from a fresh state and an empty buffer, write the
/// same text.
pub proof fn lemma_rendering_is_repeatable(
    settings: Settings,
    theme: Theme,
    base_dir: Seq<char>,
    events: Seq<Event>,
    before_first: Seq<char>,
    after_first: Seq<char>,
    before_second: Seq<char>,
    after_second: Seq<char>,
)
    requires
        after_first == before_first + crate::rendered(settings, theme, base_dir, events),
        after_second == before_second + crate::rendered(settings, theme, base_dir, events),
        before_first == before_second,
    ensures
        after_first == after_second,
{
}

/// Whether a terminal has none of the capabilities.
pub open spec fn is_plain(capabilities: TerminalCapabilities) -> bool {
    &&& capabilities.style is NoStyle
    &&& capabilities.links is NoLinks
    &&& capabilities.marks is NoMarks
}

/// Where the terminal shows no styles, styling changes nothing: the text is
/// written as it is, whatever the style.
pub proof fn lemma_plain_styling_changes_nothing(
    capabilities: TerminalCapabilities,
    style: Style,
    text: Seq<char>,
)
    requires
        capabilities.style is NoStyle,
    ensures
        styled(capabilities, style, text) == text,
{
}

/// Whether a text holds no escape character, and so no escape sequence.
pub open spec fn escape_free(text: Seq<char>) -> bool {
    forall|i: int| 0 <= i < text.len() ==> text[i] != '\x1b'
}

/// Whether the texts of an event that the renderer writes hold no escape
/// character.
pub open spec fn event_escape_free(event: Event) -> bool {
    match event {
        Event::Text(text) => escape_free(text@),
        Event::Code(code) => escape_free(code@),
        Event::End(Tag::Link(_, target, title)) => escape_free(target@) && escape_free(title@),
        _ => true,
    }
}

/// Whether the targets and titles of links hold no escape character.
pub open spec fn links_escape_free(links: Seq<Link>) -> bool {
    forall|i: int|
        0 <= i < links.len() ==> escape_free((#[trigger] links[i]).target@) && escape_free(
            links[i].title@,
        )
}

/// Two texts without escape characters make one without.
pub proof fn lemma_concat_escape_free(first: Seq<char>, second: Seq<char>)
    requires
        escape_free(first),
        escape_free(second),
    ensures
        escape_free(first + second),
{
}

/// A repeated text holds an escape character only where the text does.
pub proof fn lemma_repeated_escape_free(text: Seq<char>, count: nat)
    requires
        escape_free(text),
    ensures
        escape_free(repeated(text, count)),
    decreases count,
{
    if count > 0 {
        lemma_repeated_escape_free(text, (count - 1) as nat);
        lemma_concat_escape_free(repeated(text, (count - 1) as nat), text);
    }
}

/// A number in decimal notation holds no escape character.
pub proof fn lemma_decimal_escape_free(number: nat)
    ensures
        escape_free(decimal(number)),
    decreases number,
{
    if number >= 10 {
        lemma_decimal_escape_free(number / 10);
    }
}

/// The references of links without escape characters hold none, where the
/// terminal shows no styles.
pub proof fn lemma_link_refs_escape_free(capabilities: TerminalCapabilities, links: Seq<Link>)
    requires
        capabilities.style is NoStyle,
        links_escape_free(links),
    ensures
        escape_free(link_ref_lines(capabilities, links)),
        escape_free(link_refs(capabilities, links)),
    decreases links.len(),
{
    if links.len() > 0 {
        let link = links.last();
        assert(links_escape_free(links.drop_last()));
        lemma_link_refs_escape_free(capabilities, links.drop_last());
        lemma_decimal_escape_free(link.index as nat);
        assert(escape_free(link_ref(link)));
    }
}

/// The marker of a list item holds no escape character.
pub proof fn lemma_marker_escape_free(item_type: ListItemType)
    ensures
        escape_free(item_type.marker()),
{
    match item_type {
        ListItemType::Unordered => {},
        ListItemType::Ordered(number) => {
            lemma_decimal_escape_free(number as nat);
            lemma_repeated_escape_free(seq![' '], 2);
            lemma_repeated_escape_free(seq![' '], 1);
            lemma_repeated_escape_free(seq![' '], 0);
            let digits = decimal(number as nat);
            if digits.len() < 2 {
                lemma_repeated_escape_free(seq![' '], (2 - digits.len()) as nat);
            }
            assert(escape_free(right_aligned(digits, 2)));
        },
    }
}

/// On a terminal without capabilities, an event without escape characters
/// writes none, and leaves none in the links that wait.
pub proof fn lemma_step_escape_free(
    settings: Settings,
    theme: Theme,
    base_dir: Seq<char>,
    state: State,
    data: LinkBuffer,
    event: Event,
)
    requires
        is_plain(settings.terminal_capabilities),
        possible(settings, state, data, event),
        event_escape_free(event),
        links_escape_free(data.pending_links),
    ensures
        escape_free(step(settings, theme, base_dir, state, data, event).output),
        links_escape_free(step(settings, theme, base_dir, state, data, event).data.pending_links),
{
    let capabilities = settings.terminal_capabilities;
    let next = step(settings, theme, base_dir, state, data, event);
    lemma_link_refs_escape_free(capabilities, data.pending_links);
    lemma_decimal_escape_free(data.next_link as nat);
    assert(escape_free(link_index(data.next_link)));
    lemma_repeated_escape_free(seq!['\u{2550}'], settings.terminal_size.width as nat);
    lemma_repeated_escape_free(seq!['\u{2500}'], border_width(settings.terminal_size));
    assert(escape_free(border(capabilities, settings.terminal_size)));
    match state {
        State::TopLevel(_) => {
            match event {
                Event::Start(Tag::Heading(level)) => {
                    lemma_repeated_escape_free(seq!['\u{2504}'], level as nat);
                },
                _ => {},
            }
        },
        State::NestedState(_, NestedState::StyledBlock(attrs)) => {
            lemma_repeated_escape_free(seq![' '], attrs.indent as nat);
            match event {
                Event::Start(Tag::Heading(level)) => {
                    lemma_repeated_escape_free(seq!['\u{2504}'], level as nat);
                },
                Event::Rule => {
                    lemma_repeated_escape_free(
                        seq!['\u{2550}'],
                        (settings.terminal_size.width - attrs.indent) as nat,
                    );
                },
                _ => {},
            }
        },
        State::NestedState(_, NestedState::HighlightBlock(_)) => {},
        State::NestedState(_, NestedState::ListBlock(attrs)) => {
            lemma_repeated_escape_free(seq![' '], attrs.indent as nat);
            lemma_marker_escape_free(attrs.item_type);
        },
        State::NestedState(_, NestedState::Inline(_, attrs)) => {
            lemma_repeated_escape_free(seq![' '], attrs.indent as nat);
        },
    }
}

/// On a terminal without capabilities, events without escape characters
/// write none, and leave none in the links that wait.
pub proof fn lemma_run_escape_free(
    settings: Settings,
    theme: Theme,
    base_dir: Seq<char>,
    state: State,
    data: LinkBuffer,
    events: Seq<Event>,
)
    requires
        is_plain(settings.terminal_capabilities),
        all_possible(settings, theme, base_dir, state, data, events),
        forall|i: int| 0 <= i < events.len() ==> event_escape_free(#[trigger] events[i]),
        links_escape_free(data.pending_links),
    ensures
        escape_free(run(settings, theme, base_dir, state, data, events).output),
        links_escape_free(run(settings, theme, base_dir, state, data, events).data.pending_links),
    decreases events.len(),
{
    if events.len() > 0 {
        let first = step(settings, theme, base_dir, state, data, events[0]);
        lemma_step_escape_free(settings, theme, base_dir, state, data, events[0]);
        let rest = events.skip(1);
        assert forall|i: int| 0 <= i < rest.len() implies event_escape_free(#[trigger] rest[i]) by {
            assert(rest[i] == events[i + 1]);
        }
        lemma_run_escape_free(settings, theme, base_dir, first.state, first.data, rest);
        lemma_concat_escape_free(
            first.output,
            run(settings, theme, base_dir, first.state, first.data, rest).output,
        );
    }
}

/// A document without escape characters, rendered for a terminal without
/// capabilities, holds no escape character: besides the texts of the
/// document only margins, indentation, glyphs and numbers are written.
pub proof fn lemma_plain_rendering_is_escape_free(
    settings: Settings,
    theme: Theme,
    base_dir: Seq<char>,
    events: Seq<Event>,
)
    requires
        is_plain(settings.terminal_capabilities),
        all_possible(settings, theme, base_dir, State::initial(), LinkBuffer::initial(), events),
        forall|i: int| 0 <= i < events.len() ==> event_escape_free(#[trigger] events[i]),
    ensures
        escape_free(crate::rendered(settings, theme, base_dir, events)),
{
    let end = run(settings, theme, base_dir, State::initial(), LinkBuffer::initial(), events);
    lemma_run_escape_free(
        settings,
        theme,
        base_dir,
        State::initial(),
        LinkBuffer::initial(),
        events,
    );
    lemma_link_refs_escape_free(settings.terminal_capabilities, end.data.pending_links);
    lemma_concat_escape_free(
        end.output,
        link_refs(settings.terminal_capabilities, end.data.pending_links),
    );
}

/// Whether an event is text, inline code, or the start or the end of
/// emphasis, strong emphasis or strikethrough.
pub open spec fn is_text_or_markup(event: Event) -> bool {
    match event {
        Event::Text(_) => true,
        Event::Code(_) => true,
        Event::Start(tag) => tag is Emphasis || tag is Strong || tag is Strikethrough,
        Event::End(tag) => tag is Emphasis || tag is Strong || tag is Strikethrough,
        _ => false,
    }
}

/// The texts of the events, one after the other.
pub open spec fn texts(events: Seq<Event>) -> Seq<char>
    decreases events.len(),
{
    if events.len() == 0 {
        Seq::empty()
    } else {
        let first = match events[0] {
            Event::Text(text) => text@,
            Event::Code(code) => code@,
            _ => Seq::empty(),
        };
        first + texts(events.skip(1))
    }
}

/// Where the terminal shows no styles, text with inline markup is written
/// as the text alone: the markup leaves no trace.
pub proof fn lemma_plain_text_is_written_as_it_is(
    settings: Settings,
    theme: Theme,
    base_dir: Seq<char>,
    state: State,
    data: LinkBuffer,
    events: Seq<Event>,
)
    requires
        settings.terminal_capabilities.style is NoStyle,
        all_possible(settings, theme, base_dir, state, data, events),
        forall|i: int| 0 <= i < events.len() ==> is_text_or_markup(#[trigger] events[i]),
    ensures
        run(settings, theme, base_dir, state, data, events).output == texts(events),
        run(settings, theme, base_dir, state, data, events).data == data,
    decreases events.len(),
{
    if events.len() > 0 {
        let first = step(settings, theme, base_dir, state, data, events[0]);
        let rest = events.skip(1);
        assert(is_text_or_markup(events[0]));
        assert forall|i: int| 0 <= i < rest.len() implies is_text_or_markup(#[trigger] rest[i]) by {
            assert(rest[i] == events[i + 1]);
        }
        lemma_plain_text_is_written_as_it_is(
            settings,
            theme,
            base_dir,
            first.state,
            first.data,
            rest,
        );
        assert(first.output =~= match events[0] {
            Event::Text(text) => text@,
            Event::Code(code) => code@,
            _ => Seq::empty(),
        });
    }
}

/// What events do one after the other is what the first of them do, and
/// then the rest from where the first lead.
pub proof fn lemma_run_in_two_parts(
    settings: Settings,
    theme: Theme,
    base_dir: Seq<char>,
    state: State,
    data: LinkBuffer,
    first: Seq<Event>,
    second: Seq<Event>,
)
    ensures
        ({
            let middle = run(settings, theme, base_dir, state, data, first);
            let end = run(settings, theme, base_dir, middle.state, middle.data, second);
            let whole = run(settings, theme, base_dir, state, data, first + second);
            &&& whole.state == end.state
            &&& whole.data == end.data
            &&& whole.output == middle.output + end.output
            &&& all_possible(settings, theme, base_dir, state, data, first + second) == (
            all_possible(settings, theme, base_dir, state, data, first) && all_possible(
                settings,
                theme,
                base_dir,
                middle.state,
                middle.data,
                second,
            ))
        }),
    decreases first.len(),
{
    if first.len() == 0 {
        assert(first + second =~= second);
        let end = run(settings, theme, base_dir, state, data, second);
        assert(Seq::<char>::empty() + end.output =~= end.output);
    } else {
        let next = step(settings, theme, base_dir, state, data, first[0]);
        assert((first + second)[0] == first[0]);
        assert((first + second).skip(1) =~= first.skip(1) + second);
        lemma_run_in_two_parts(
            settings,
            theme,
            base_dir,
            next.state,
            next.data,
            first.skip(1),
            second,
        );
        let middle = run(settings, theme, base_dir, state, data, first);
        let inner = run(settings, theme, base_dir, next.state, next.data, first.skip(1));
        let end = run(settings, theme, base_dir, middle.state, middle.data, second);
        assert(next.output + (inner.output + end.output) =~= (next.output + inner.output)
            + end.output);
    }
}

/// What one event does as a sequence is what it does as an event.
pub proof fn lemma_run_of_one(
    settings: Settings,
    theme: Theme,
    base_dir: Seq<char>,
    state: State,
    data: LinkBuffer,
    event: Event,
)
    ensures
        run(settings, theme, base_dir, state, data, seq![event]) == step(
            settings,
            theme,
            base_dir,
            state,
            data,
            event,
        ),
        all_possible(settings, theme, base_dir, state, data, seq![event]) == possible(
            settings,
            state,
            data,
            event,
        ),
{
    let events = seq![event];
    let first = step(settings, theme, base_dir, state, data, event);
    assert(events[0] == event);
    assert(events.skip(1) =~= Seq::<Event>::empty());
    let rest = run(settings, theme, base_dir, first.state, first.data, events.skip(1));
    assert(rest.output =~= Seq::<char>::empty());
    assert(first.output + rest.output =~= first.output);
    assert(all_possible(settings, theme, base_dir, first.state, first.data, events.skip(1)));
}

/// A paragraph of text with inline markup.
pub open spec fn paragraph(inline: Seq<Event>) -> Seq<Event> {
    seq![Event::Start(Tag::Paragraph)] + inline + seq![Event::End(Tag::Paragraph)]
}

/// Where the terminal shows no styles, a document of one paragraph of text
/// with inline markup is rendered as the text of the paragraph and a line
/// break.
pub proof fn lemma_plain_paragraph_is_its_text(
    settings: Settings,
    theme: Theme,
    base_dir: Seq<char>,
    inline: Seq<Event>,
)
    requires
        settings.terminal_capabilities.style is NoStyle,
        all_possible(
            settings,
            theme,
            base_dir,
            State::initial(),
            LinkBuffer::initial(),
            paragraph(inline),
        ),
        forall|i: int| 0 <= i < inline.len() ==> is_text_or_markup(#[trigger] inline[i]),
    ensures
        crate::rendered(settings, theme, base_dir, paragraph(inline)) == texts(inline) + newline(),
{
    let start = seq![Event::Start(Tag::Paragraph)];
    let end = seq![Event::End(Tag::Paragraph)];
    let initial = State::initial();
    let links = LinkBuffer::initial();
    lemma_run_in_two_parts(settings, theme, base_dir, initial, links, start + inline, end);
    lemma_run_in_two_parts(settings, theme, base_dir, initial, links, start, inline);
    lemma_run_of_one(settings, theme, base_dir, initial, links, Event::Start(Tag::Paragraph));
    let opened = run(settings, theme, base_dir, initial, links, start);
    lemma_plain_text_is_written_as_it_is(
        settings,
        theme,
        base_dir,
        opened.state,
        opened.data,
        inline,
    );
    let written = run(settings, theme, base_dir, initial, links, start + inline);
    assert(written.output =~= texts(inline));
    lemma_run_of_one(
        settings,
        theme,
        base_dir,
        written.state,
        written.data,
        Event::End(Tag::Paragraph),
    );
    lemma_end_of_paragraph_breaks_the_line(settings, theme, base_dir, written.state, written.data);
    assert(crate::rendered(settings, theme, base_dir, paragraph(inline)) =~= texts(inline)
        + newline());
}

/// Where the end of a paragraph can come, it breaks the line and leaves
/// the links as they are.
pub proof fn lemma_end_of_paragraph_breaks_the_line(
    settings: Settings,
    theme: Theme,
    base_dir: Seq<char>,
    state: State,
    data: LinkBuffer,
)
    requires
        possible(settings, state, data, Event::End(Tag::Paragraph)),
    ensures
        step(settings, theme, base_dir, state, data, Event::End(Tag::Paragraph)).output
            == newline(),
        step(settings, theme, base_dir, state, data, Event::End(Tag::Paragraph)).data == data,
{
}

} // verus!
