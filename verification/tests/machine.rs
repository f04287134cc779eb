use mdcat::events::{CodeBlockKind, Event, LinkType, Tag};
use mdcat::state_write::{
    finish, is_possible, write_event, HighlightBlockAttrs, InlineAttrs, InlineState, Link,
    ListBlockAttrs, ListItemType, NestedState, State, StateData, StyledBlockAttrs, TopLevelAttrs,
};
use mdcat::style::{Colour, Style};
use mdcat::terminal::{ResourceAccess, TerminalCapabilities, TerminalSize};
use mdcat::Settings;
use syntect::highlighting::{Theme, ThemeSet};
use syntect::parsing::SyntaxSet;

fn theme() -> Theme {
    ThemeSet::load_defaults().themes["Solarized (dark)"].clone()
}

fn settings(capabilities: TerminalCapabilities, width: usize) -> Settings {
    Settings {
        resource_access: ResourceAccess::LocalOnly,
        syntax_set: SyntaxSet::default(),
        terminal_capabilities: capabilities,
        terminal_size: TerminalSize { width, height: 24 },
    }
}

fn plain() -> Settings {
    settings(TerminalCapabilities::none(), 80)
}

fn text(text: &str) -> Event {
    Event::Text(text.to_string())
}

fn link(kind: LinkType, target: &str) -> Tag {
    Tag::Link(kind, target.to_string(), String::new())
}

fn run_from(
    settings: &Settings,
    state: State,
    data: StateData,
    events: Vec<Event>,
) -> (State, StateData, String) {
    let theme = theme();
    let mut out = String::new();
    let mut state = state;
    let mut data = data;
    for event in events {
        assert!(is_possible(settings, &state, &data, &event), "{:?} in {:?}", event, state);
        let next = write_event(&mut out, settings, "/", &theme, state, data, event);
        state = next.0;
        data = next.1;
    }
    (state, data, out)
}

fn run(settings: &Settings, events: Vec<Event>) -> (State, StateData, String) {
    run_from(settings, State::default(), StateData::default(), events)
}

fn inline_style(state: &State) -> Style {
    match state {
        State::NestedState(_, NestedState::Inline(_, attrs)) => attrs.style,
        _ => panic!("no inline text: {:?}", state),
    }
}

fn depth(state: &State) -> usize {
    match state {
        State::TopLevel(_) => 0,
        State::NestedState(return_to, _) => depth(return_to) + 1,
    }
}

fn top_level(margin_before: bool) -> State {
    State::TopLevel(TopLevelAttrs { margin_before })
}

fn inline(return_to: State, mode: InlineState, style: Style, indent: u16) -> State {
    State::NestedState(Box::new(return_to), NestedState::Inline(mode, InlineAttrs { style, indent }))
}

#[test]
fn initial_state_and_buffer() {
    assert_eq!(State::default(), top_level(false));
    assert_eq!(TopLevelAttrs::default(), TopLevelAttrs { margin_before: false });
    assert_eq!(TopLevelAttrs::margin_before(), TopLevelAttrs { margin_before: true });
    assert_eq!(StateData::default(), StateData { pending_links: Vec::new(), next_link: 1 });
}

#[test]
fn balanced_events_end_at_top_level() {
    let events = vec![
        Event::Start(Tag::BlockQuote),
        Event::Start(Tag::List(Some(3))),
        Event::Start(Tag::Item),
        Event::Start(Tag::Paragraph),
        Event::Start(Tag::Emphasis),
        Event::Start(link(LinkType::Inline, "http://example.com")),
        text("x"),
        Event::End(link(LinkType::Inline, "http://example.com")),
        Event::End(Tag::Emphasis),
        Event::End(Tag::Paragraph),
        Event::End(Tag::Item),
        Event::End(Tag::List(Some(3))),
        Event::End(Tag::BlockQuote),
        Event::Start(Tag::CodeBlock(CodeBlockKind::Indented)),
        text("code\n"),
        Event::End(Tag::CodeBlock(CodeBlockKind::Indented)),
    ];
    let (state, data, _) = run(&plain(), events);
    assert_eq!(state, top_level(true));
    assert_eq!(data.pending_links.len(), 1);
}

#[test]
fn each_start_nests_once_and_each_end_returns() {
    let events = vec![
        Event::Start(Tag::List(None)),
        Event::Start(Tag::Item),
        Event::Start(Tag::Paragraph),
        Event::Start(Tag::Strong),
        text("x"),
    ];
    let (state, data, _) = run(&plain(), events);
    assert_eq!(depth(&state), 4);
    let events = vec![Event::End(Tag::Strong), Event::End(Tag::Paragraph)];
    let (state, data, _) = run_from(&plain(), state, data, events);
    assert_eq!(depth(&state), 2);
    let events = vec![Event::End(Tag::Item), Event::End(Tag::List(None))];
    let (state, _, _) = run_from(&plain(), state, data, events);
    assert_eq!(depth(&state), 0);
}

#[test]
fn emphasis_parity_at_depths_one_two_three() {
    let mut events = vec![Event::Start(Tag::Paragraph)];
    let (state, _, _) = run(&plain(), events.clone());
    assert!(!inline_style(&state).is_italic);
    events.push(Event::Start(Tag::Emphasis));
    let (state, _, _) = run(&plain(), events.clone());
    assert!(inline_style(&state).is_italic);
    events.push(Event::Start(Tag::Emphasis));
    let (state, _, _) = run(&plain(), events.clone());
    assert!(!inline_style(&state).is_italic);
    events.push(Event::Start(Tag::Emphasis));
    let (state, _, _) = run(&plain(), events.clone());
    assert!(inline_style(&state).is_italic);
    events.push(Event::End(Tag::Emphasis));
    let (state, _, _) = run(&plain(), events.clone());
    assert!(!inline_style(&state).is_italic);
}

#[test]
fn strong_between_emphases_keeps_the_parity() {
    let events = vec![
        Event::Start(Tag::Paragraph),
        Event::Start(Tag::Emphasis),
        Event::Start(Tag::Strong),
        Event::Start(Tag::Emphasis),
    ];
    let (state, _, _) = run(&plain(), events);
    let style = inline_style(&state);
    assert!(!style.is_italic);
    assert!(style.is_bold);
}

#[test]
fn emphasis_in_a_block_quote_is_upright() {
    let mut events = vec![Event::Start(Tag::BlockQuote), Event::Start(Tag::Paragraph)];
    let (state, _, _) = run(&plain(), events.clone());
    assert_eq!(inline_style(&state), Style::new().italic().fg(Colour::Green));
    events.push(Event::Start(Tag::Emphasis));
    let (state, _, _) = run(&plain(), events);
    let style = inline_style(&state);
    assert!(!style.is_italic);
    assert_eq!(style.foreground, Some(Colour::Green));
}

#[test]
fn nth_link_has_index_n_whatever_the_nesting() {
    let linked = |label: &str| {
        vec![
            Event::Start(link(LinkType::Inline, label)),
            text(label),
            Event::End(Tag::Link(LinkType::Inline, label.to_string(), "title".to_string())),
        ]
    };
    let mut events = vec![Event::Start(Tag::Paragraph)];
    events.extend(linked("a"));
    events.push(Event::Start(link(LinkType::Autolink, "auto")));
    events.push(text("auto"));
    events.push(Event::End(link(LinkType::Autolink, "auto")));
    events.push(Event::End(Tag::Paragraph));
    events.push(Event::Start(Tag::BlockQuote));
    events.push(Event::Start(Tag::Paragraph));
    events.push(Event::Start(Tag::Strong));
    events.extend(linked("b"));
    events.push(Event::End(Tag::Strong));
    events.push(Event::End(Tag::Paragraph));
    events.push(Event::End(Tag::BlockQuote));
    events.push(Event::Start(Tag::List(None)));
    events.push(Event::Start(Tag::Item));
    events.push(Event::Start(Tag::Paragraph));
    events.extend(linked("c"));
    events.push(Event::End(Tag::Paragraph));
    events.push(Event::End(Tag::Item));
    events.push(Event::End(Tag::List(None)));
    let (state, data, out) = run(&plain(), events);
    assert_eq!(state, top_level(true));
    assert_eq!(out, "a[1]auto\n\n    b[2]\n\n\u{2022} c[3]\n\n");
    assert_eq!(data.next_link, 4);
    assert_eq!(
        data.pending_links,
        vec![
            Link { index: 1, target: "a".to_string(), title: "title".to_string() },
            Link { index: 2, target: "b".to_string(), title: "title".to_string() },
            Link { index: 3, target: "c".to_string(), title: "title".to_string() },
        ]
    );
}

#[test]
fn indices_go_on_after_a_flush() {
    let mut events = vec![
        Event::Start(Tag::Paragraph),
        Event::Start(link(LinkType::Inline, "a")),
        Event::End(link(LinkType::Inline, "a")),
        Event::End(Tag::Paragraph),
        Event::Start(Tag::Heading(1)),
    ];
    let (state, data, out) = run(&plain(), events.clone());
    assert_eq!(out, "[1]\n\n[1]: a \n\n\u{2504}");
    assert_eq!(data, StateData { pending_links: Vec::new(), next_link: 2 });
    assert_eq!(
        state,
        inline(top_level(true), InlineState::InlineText, Style::new().fg(Colour::Blue).bold(), 0)
    );
    events.push(Event::Start(link(LinkType::Reference, "b")));
    events.push(Event::End(link(LinkType::Reference, "b")));
    let (_, data, _) = run(&plain(), events);
    assert_eq!(
        data.pending_links,
        vec![Link { index: 2, target: "b".to_string(), title: String::new() }]
    );
    assert_eq!(data.next_link, 3);
}

#[test]
fn add_link_and_take_links() {
    let (data, first) = StateData::default().add_link("a".to_string(), "A".to_string());
    let (data, second) = data.add_link("b".to_string(), "B".to_string());
    assert_eq!((first, second), (1, 2));
    let (data, links) = data.take_links();
    assert_eq!(
        links,
        vec![
            Link { index: 1, target: "a".to_string(), title: "A".to_string() },
            Link { index: 2, target: "b".to_string(), title: "B".to_string() },
        ]
    );
    assert_eq!(data, StateData { pending_links: Vec::new(), next_link: 3 });
    let (data, third) = data.add_link("c".to_string(), String::new());
    assert_eq!(third, 3);
    assert_eq!(data.pending_links.len(), 1);
}

#[test]
fn finish_writes_the_links_that_wait() {
    let (data, _) = StateData::default().add_link("a".to_string(), "A".to_string());
    let mut out = String::from("x");
    finish(&mut out, &plain(), top_level(true), data);
    assert_eq!(out, "x\n[1]: a A\n");
    let mut out = String::from("x");
    finish(&mut out, &plain(), State::default(), StateData::default());
    assert_eq!(out, "x");
}

#[test]
fn states_after_the_starts_of_blocks() {
    let (state, _, out) = run(&plain(), vec![Event::Start(Tag::Paragraph)]);
    assert_eq!(out, "");
    assert_eq!(state, inline(top_level(true), InlineState::InlineText, Style::new(), 0));

    let (state, _, _) = run(&plain(), vec![Event::Start(Tag::BlockQuote)]);
    assert_eq!(
        state,
        State::NestedState(
            Box::new(top_level(true)),
            NestedState::StyledBlock(StyledBlockAttrs {
                margin_before: false,
                indent: 4,
                style: Style::new().italic().fg(Colour::Green),
            }),
        )
    );

    let fence = |name: &str| Event::Start(Tag::CodeBlock(CodeBlockKind::Fenced(name.to_string())));
    let (state, _, _) = run(&plain(), vec![fence("rust")]);
    assert_eq!(
        state,
        State::NestedState(
            Box::new(top_level(true)),
            NestedState::HighlightBlock(HighlightBlockAttrs {
                syntax_token: Some("rust".to_string()),
            }),
        )
    );
    let (state, _, _) = run(&plain(), vec![fence("")]);
    assert_eq!(
        state,
        State::NestedState(
            Box::new(top_level(true)),
            NestedState::HighlightBlock(HighlightBlockAttrs { syntax_token: None }),
        )
    );

    let (state, _, _) = run(&plain(), vec![Event::Start(Tag::List(Some(7)))]);
    assert_eq!(
        state,
        State::NestedState(
            Box::new(top_level(true)),
            NestedState::ListBlock(ListBlockAttrs {
                item_type: ListItemType::Ordered(7),
                newline_before: false,
                indent: 0,
                style: Style::new(),
            }),
        )
    );
}

#[test]
fn list_item_advances_the_list() {
    let events = vec![Event::Start(Tag::List(Some(7))), Event::Start(Tag::Item)];
    let (state, _, out) = run(&plain(), events);
    assert_eq!(out, " 7. ");
    let list = State::NestedState(
        Box::new(top_level(true)),
        NestedState::ListBlock(ListBlockAttrs {
            item_type: ListItemType::Ordered(8),
            newline_before: true,
            indent: 0,
            style: Style::new(),
        }),
    );
    assert_eq!(state, inline(list, InlineState::ListItemText, Style::new(), 4));
    assert_eq!(ListItemType::from_start(None), ListItemType::Unordered);
    assert_eq!(ListItemType::from_start(Some(2)), ListItemType::Ordered(2));
}

#[test]
fn to_next_item_and_with_margin_before() {
    let attrs = ListBlockAttrs {
        item_type: ListItemType::Unordered,
        newline_before: false,
        indent: 2,
        style: Style::new().bold(),
    };
    assert_eq!(
        attrs.to_next_item(),
        ListBlockAttrs {
            item_type: ListItemType::Unordered,
            newline_before: true,
            indent: 2,
            style: Style::new().bold(),
        }
    );
    let attrs = StyledBlockAttrs { margin_before: false, indent: 4, style: Style::new() };
    assert_eq!(
        attrs.with_margin_before(),
        StyledBlockAttrs { margin_before: true, indent: 4, style: Style::new() }
    );
}

#[test]
fn paragraph_in_a_list_item_turns_the_item_into_a_block() {
    let events = vec![
        Event::Start(Tag::List(None)),
        Event::Start(Tag::Item),
        Event::Start(Tag::Paragraph),
    ];
    let (state, _, _) = run(&plain(), events);
    let list = State::NestedState(
        Box::new(top_level(true)),
        NestedState::ListBlock(ListBlockAttrs {
            item_type: ListItemType::Unordered,
            newline_before: true,
            indent: 0,
            style: Style::new(),
        }),
    );
    let block = State::NestedState(
        Box::new(list),
        NestedState::StyledBlock(StyledBlockAttrs {
            margin_before: true,
            indent: 2,
            style: Style::new(),
        }),
    );
    assert_eq!(state, inline(block, InlineState::InlineText, Style::new(), 2));
}

#[test]
fn link_state_depends_on_the_capability_and_the_target() {
    let start = |target: &str| {
        vec![Event::Start(Tag::Paragraph), Event::Start(link(LinkType::Inline, target))]
    };
    let paragraph = || inline(top_level(true), InlineState::InlineText, Style::new(), 0);
    let blue = Style::new().fg(Colour::Blue);

    let (state, _, out) = run(&plain(), start("http://example.com"));
    assert_eq!(out, "");
    assert_eq!(state, inline(paragraph(), InlineState::InlineText, blue, 0));

    let live = settings(TerminalCapabilities::iterm2(), 80);
    let (state, _, out) = run(&live, start("http://example.com"));
    assert_eq!(out, "\x1b]8;;http://example.com/\x07");
    assert_eq!(state, inline(paragraph(), InlineState::InlineLink, blue, 0));

    let theme = theme();
    let mut out = String::new();
    let (state, data) = (paragraph(), StateData::default());
    let next = write_event(
        &mut out,
        &live,
        "not/absolute",
        &theme,
        state,
        data,
        Event::Start(link(LinkType::Inline, "a.md")),
    );
    assert_eq!(out, "");
    assert_eq!(next.0, inline(paragraph(), InlineState::InlineText, blue, 0));
}

#[test]
fn events_that_cannot_come() {
    let settings = plain();
    let data = StateData::default();
    let top = State::default();
    assert!(!is_possible(&settings, &top, &data, &text("x")));
    assert!(!is_possible(&settings, &top, &data, &Event::Code("x".to_string())));
    assert!(!is_possible(&settings, &top, &data, &Event::Html("x".to_string())));
    assert!(!is_possible(&settings, &top, &data, &Event::End(Tag::Paragraph)));
    assert!(!is_possible(&settings, &top, &data, &Event::Start(Tag::Item)));
    assert!(!is_possible(&settings, &top, &data, &Event::TaskListMarker(true)));
    assert!(!is_possible(&settings, &top, &data, &Event::Start(Tag::Table(Vec::new()))));
    assert!(is_possible(&settings, &top, &data, &Event::Rule));

    let paragraph = inline(top_level(true), InlineState::InlineText, Style::new(), 0);
    let end_link = Event::End(link(LinkType::Inline, "a"));
    assert!(is_possible(&settings, &paragraph, &data, &end_link));
    assert!(is_possible(&settings, &paragraph, &data, &Event::Start(link(LinkType::Inline, "a"))));
    assert!(!is_possible(&settings, &paragraph, &data, &Event::End(Tag::Item)));
    assert!(!is_possible(&settings, &paragraph, &data, &Event::Start(Tag::Paragraph)));
    assert!(!is_possible(&settings, &paragraph, &data, &Event::Rule));
    assert!(!is_possible(
        &settings,
        &paragraph,
        &data,
        &Event::Start(Tag::Image(LinkType::Inline, String::new(), String::new()))
    ));

    let item = inline(top_level(true), InlineState::ListItemText, Style::new(), 2);
    assert!(is_possible(&settings, &item, &data, &Event::End(Tag::Item)));
    assert!(is_possible(&settings, &item, &data, &Event::Start(Tag::Paragraph)));
    assert!(is_possible(&settings, &item, &data, &Event::Start(Tag::List(None))));
    assert!(!is_possible(&settings, &item, &data, &Event::Start(link(LinkType::Inline, "a"))));
    assert!(!is_possible(&settings, &item, &data, &end_link));

    let live_link = inline(top_level(true), InlineState::InlineLink, Style::new(), 0);
    assert!(!is_possible(&settings, &live_link, &data, &end_link));
    let live = super_settings();
    assert!(is_possible(&live, &live_link, &data, &end_link));
    assert!(!is_possible(&live, &live_link, &data, &Event::Start(link(LinkType::Inline, "a"))));

    let code = State::NestedState(
        Box::new(top_level(true)),
        NestedState::HighlightBlock(HighlightBlockAttrs { syntax_token: None }),
    );
    assert!(is_possible(&settings, &code, &data, &text("x")));
    assert!(!is_possible(&settings, &code, &data, &Event::SoftBreak));
    assert!(!is_possible(&settings, &code, &data, &Event::End(Tag::Paragraph)));
}

fn super_settings() -> Settings {
    settings(TerminalCapabilities::iterm2(), 80)
}

#[test]
fn events_that_the_machine_limits_forbid() {
    let settings = settings(TerminalCapabilities::none(), 3);
    let data = StateData::default();
    let quote = |indent: u16| {
        State::NestedState(
            Box::new(top_level(true)),
            NestedState::StyledBlock(StyledBlockAttrs {
                margin_before: false,
                indent,
                style: Style::new(),
            }),
        )
    };
    assert!(is_possible(&settings, &quote(3), &data, &Event::Rule));
    assert!(!is_possible(&settings, &quote(4), &data, &Event::Rule));
    assert!(is_possible(&settings, &quote(4), &data, &Event::Start(Tag::Paragraph)));

    let list = |item_type: ListItemType, indent: u16| {
        State::NestedState(
            Box::new(top_level(true)),
            NestedState::ListBlock(ListBlockAttrs {
                item_type,
                newline_before: false,
                indent,
                style: Style::new(),
            }),
        )
    };
    let item = Event::Start(Tag::Item);
    assert!(is_possible(&settings, &list(ListItemType::Unordered, u16::MAX - 2), &data, &item));
    assert!(!is_possible(&settings, &list(ListItemType::Unordered, u16::MAX - 1), &data, &item));
    assert!(is_possible(&settings, &list(ListItemType::Ordered(1), u16::MAX - 4), &data, &item));
    assert!(!is_possible(&settings, &list(ListItemType::Ordered(1), u16::MAX - 3), &data, &item));
    assert!(!is_possible(&settings, &list(ListItemType::Ordered(u64::MAX), 0), &data, &item));
    assert!(is_possible(&settings, &list(ListItemType::Ordered(u64::MAX - 1), 0), &data, &item));

    let paragraph = inline(top_level(true), InlineState::InlineText, Style::new(), 0);
    let full = StateData { pending_links: Vec::new(), next_link: u16::MAX };
    let almost = StateData { pending_links: Vec::new(), next_link: u16::MAX - 1 };
    let end_link = Event::End(link(LinkType::Inline, "a"));
    let end_autolink = Event::End(link(LinkType::Autolink, "a"));
    assert!(!is_possible(&settings, &paragraph, &full, &end_link));
    assert!(is_possible(&settings, &paragraph, &full, &end_autolink));
    assert!(is_possible(&settings, &paragraph, &almost, &end_link));
}

#[test]
fn rule_in_a_block_quote_leaves_room_for_the_indentation() {
    let events = vec![Event::Start(Tag::BlockQuote), Event::Rule];
    let (state, _, out) = run(&settings(TerminalCapabilities::none(), 6), events);
    assert_eq!(out, "    \u{2550}\u{2550}\n");
    assert_eq!(
        state,
        State::NestedState(
            Box::new(top_level(true)),
            NestedState::StyledBlock(StyledBlockAttrs {
                margin_before: true,
                indent: 4,
                style: Style::new().italic().fg(Colour::Green),
            }),
        )
    );
}

#[test]
fn end_of_a_block_quote_returns_from_any_state() {
    let events = vec![
        Event::Start(Tag::BlockQuote),
        Event::Start(Tag::Paragraph),
        Event::End(Tag::BlockQuote),
    ];
    let (state, _, _) = run(&plain(), events);
    assert_eq!(depth(&state), 1);
}
