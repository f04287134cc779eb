use mdcat::events::{CodeBlockKind, Event, Tag};
use mdcat::render::{self, PassEvent, PrintEvent, Ruler, TextStyles};
use mdcat::render_machine::{self, InlineStyle, RenderState};
use mdcat::style::{Colour, Style};
use mdcat::terminal::TerminalCapabilities;
use syntect::highlighting::{Theme, ThemeSet};
use syntect::parsing::SyntaxSet;

fn theme() -> Theme {
    ThemeSet::load_defaults().themes["Solarized (dark)"].clone()
}

fn text(text: &str) -> Event {
    Event::Text(text.to_string())
}

fn document() -> Vec<Event> {
    vec![
        Event::Start(Tag::Heading(1)),
        text("Title"),
        Event::End(Tag::Heading(1)),
        Event::Start(Tag::Paragraph),
        text("text "),
        Event::Start(Tag::Emphasis),
        text("em"),
        Event::End(Tag::Emphasis),
        Event::End(Tag::Paragraph),
    ]
}

fn markdown(events: Vec<Event>) -> Vec<PassEvent> {
    events.into_iter().map(PassEvent::Markdown).collect()
}

fn styled(text: &str, style: Style) -> PassEvent {
    PassEvent::Print(PrintEvent::StyledText(text.to_string(), style))
}

fn newline() -> PassEvent {
    PassEvent::Print(PrintEvent::Newline)
}

fn ruler() -> PassEvent {
    PassEvent::Print(PrintEvent::Ruler(Ruler {
        character: '\u{2500}',
        style: Style::new().fg(Colour::Green),
        width: Some(20),
    }))
}

fn code_block(language: &str, lines: &[&str]) -> Vec<Event> {
    let kind = || CodeBlockKind::Fenced(language.to_string());
    let mut events = vec![Event::Start(Tag::CodeBlock(kind()))];
    events.extend(lines.iter().map(|line| text(line)));
    events.push(Event::End(Tag::CodeBlock(kind())));
    events
}

#[test]
fn render_combines_its_passes() {
    let heading = Style::new().fg(Colour::Blue).bold();
    assert_eq!(
        render::render(document(), &SyntaxSet::default(), &theme()),
        vec![
            styled("\u{2504}", heading),
            styled("Title", heading),
            newline(),
            newline(),
            styled("text ", Style::new()),
            styled("em", Style::new().italic()),
            newline(),
        ]
    );
    assert_eq!(render::render(Vec::new(), &SyntaxSet::default(), &theme()), Vec::new());
}

#[test]
fn render_keeps_what_it_does_not_render() {
    let events = vec![
        Event::Start(Tag::BlockQuote),
        Event::Start(Tag::Paragraph),
        text("q"),
        Event::SoftBreak,
        Event::Code("c".to_string()),
        Event::End(Tag::Paragraph),
        Event::End(Tag::BlockQuote),
        Event::Rule,
    ];
    let quote = Style::new().italic().fg(Colour::Green);
    assert_eq!(
        render::render(events, &SyntaxSet::default(), &theme()),
        vec![
            PassEvent::Markdown(Event::Start(Tag::BlockQuote)),
            newline(),
            styled("q", quote),
            newline(),
            styled("c", quote.fg(Colour::Yellow)),
            newline(),
            PassEvent::Markdown(Event::End(Tag::BlockQuote)),
            newline(),
            PassEvent::Markdown(Event::Rule),
        ]
    );
}

#[test]
fn render_highlights_code_in_known_languages() {
    let syntax_set = SyntaxSet::load_defaults_newlines();
    let printed = render::render(code_block("rust", &["fn f() {}\n"]), &syntax_set, &theme());
    assert_eq!(printed.first(), Some(&ruler()));
    assert_eq!(printed.last(), Some(&ruler()));
    let body = &printed[1..printed.len() - 1];
    assert!(body.len() > 1);
    let mut code = String::new();
    for event in body {
        match event {
            PassEvent::Print(PrintEvent::StyledText(text, style)) => {
                assert!(matches!(style.foreground, Some(Colour::RGB(_, _, _))));
                code.push_str(text);
            }
            other => panic!("not styled text: {:?}", other),
        }
    }
    assert_eq!(code, "fn f() {}\n");
}

#[test]
fn highlight_code_leaves_text_in_unknown_languages() {
    let syntax_set = SyntaxSet::load_defaults_newlines();
    let mut events = code_block("no-such-language", &["a\n", "b\n"]);
    events.extend(code_block("", &["c\n"]));
    events.push(text("outside"));
    let highlighted = render::highlight_code(markdown(events.clone()), &syntax_set, &theme());
    let mut expected = vec![ruler()];
    expected.extend(markdown(events[0..4].to_vec()));
    expected.push(ruler());
    expected.push(ruler());
    expected.extend(markdown(events[4..7].to_vec()));
    expected.push(ruler());
    expected.push(PassEvent::Markdown(text("outside")));
    assert_eq!(highlighted, expected);
}

#[test]
fn highlight_code_ends_with_the_block() {
    let syntax_set = SyntaxSet::load_defaults_newlines();
    let mut events = code_block("rust", &["let x = 1;\n"]);
    events.push(text("let y = 2;\n"));
    let highlighted = render::highlight_code(markdown(events), &syntax_set, &theme());
    assert_eq!(highlighted.last(), Some(&PassEvent::Markdown(text("let y = 2;\n"))));
    assert!(matches!(highlighted[2], PassEvent::Print(PrintEvent::StyledText(_, _))));
}

#[test]
fn style_text_follows_the_nesting() {
    let events = markdown(vec![
        text("a"),
        Event::Start(Tag::Emphasis),
        text("b"),
        Event::Start(Tag::Emphasis),
        text("c"),
        Event::Start(Tag::Emphasis),
        text("d"),
        Event::End(Tag::Emphasis),
        Event::End(Tag::Emphasis),
        Event::Start(Tag::Strong),
        Event::Start(Tag::Strikethrough),
        text("e"),
        Event::End(Tag::Strikethrough),
        Event::End(Tag::Strong),
        Event::End(Tag::Emphasis),
        Event::Start(Tag::CodeBlock(CodeBlockKind::Indented)),
        text("f"),
        Event::End(Tag::CodeBlock(CodeBlockKind::Indented)),
        text("g"),
    ]);
    let texts: Vec<PassEvent> = render::style_text(events)
        .into_iter()
        .filter(|event| matches!(event, PassEvent::Print(_)))
        .collect();
    assert_eq!(
        texts,
        vec![
            styled("a", Style::new()),
            styled("b", Style::new().italic()),
            styled("c", Style::new()),
            styled("d", Style::new().italic()),
            styled("e", Style::new().italic().bold().strikethrough()),
            styled("f", Style::new().fg(Colour::Yellow)),
            styled("g", Style::new()),
        ]
    );
}

#[test]
fn text_styles_start_and_end() {
    let mut styles = TextStyles {
        previous_styles: Vec::new(),
        current_style: Style::new(),
        emphasis_level: 0,
    };
    styles.start(&Tag::BlockQuote);
    assert_eq!(styles.current_style, Style::new().italic().fg(Colour::Green));
    assert_eq!(styles.emphasis_level, 1);
    styles.start(&Tag::Emphasis);
    assert_eq!(styles.current_style, Style::new().fg(Colour::Green));
    assert_eq!(styles.emphasis_level, 2);
    styles.start(&Tag::Heading(1));
    assert_eq!(styles.current_style, Style::new().fg(Colour::Blue).bold());
    assert_eq!(styles.previous_styles.len(), 3);
    styles.start(&Tag::Paragraph);
    assert_eq!(styles.previous_styles.len(), 3);
    styles.end(&Tag::Paragraph);
    styles.end(&Tag::Heading(1));
    styles.end(&Tag::Emphasis);
    assert_eq!(styles.current_style, Style::new().italic().fg(Colour::Green));
    assert_eq!(styles.emphasis_level, 1);
    styles.end(&Tag::BlockQuote);
    assert_eq!(styles.current_style, Style::new());
    assert_eq!(styles.emphasis_level, 0);
    assert!(styles.previous_styles.is_empty());
    let styled_event = styles.style(PassEvent::Markdown(text("x")));
    assert_eq!(styled_event, styled("x", Style::new()));
}

#[test]
fn break_lines_after_blocks_and_for_breaks() {
    let events = markdown(vec![
        Event::Start(Tag::Paragraph),
        text("a"),
        Event::SoftBreak,
        text("b"),
        Event::HardBreak,
        Event::End(Tag::Paragraph),
        Event::End(Tag::Heading(2)),
        Event::End(Tag::BlockQuote),
    ]);
    assert_eq!(
        render::break_lines(events),
        vec![
            PassEvent::Markdown(Event::Start(Tag::Paragraph)),
            PassEvent::Markdown(text("a")),
            newline(),
            PassEvent::Markdown(text("b")),
            newline(),
            PassEvent::Markdown(Event::End(Tag::Paragraph)),
            newline(),
            PassEvent::Markdown(Event::End(Tag::Heading(2))),
            newline(),
            PassEvent::Markdown(Event::End(Tag::BlockQuote)),
        ]
    );
}

#[test]
fn remove_processed_markdown_keeps_the_rest() {
    let mut events = markdown(vec![
        Event::Start(Tag::CodeBlock(CodeBlockKind::Indented)),
        Event::End(Tag::CodeBlock(CodeBlockKind::Indented)),
        Event::Start(Tag::Heading(1)),
        Event::End(Tag::Heading(1)),
        Event::Start(Tag::Paragraph),
        Event::End(Tag::Paragraph),
        Event::Start(Tag::Strikethrough),
        Event::End(Tag::Strikethrough),
        Event::Start(Tag::Strong),
        Event::End(Tag::Strong),
        Event::Start(Tag::Emphasis),
        Event::End(Tag::Emphasis),
        Event::Start(Tag::BlockQuote),
        text("x"),
        Event::End(Tag::List(None)),
    ]);
    events.push(newline());
    assert_eq!(
        render::remove_processed_markdown(events),
        vec![
            PassEvent::Markdown(Event::Start(Tag::BlockQuote)),
            PassEvent::Markdown(text("x")),
            PassEvent::Markdown(Event::End(Tag::List(None))),
            newline(),
        ]
    );
}

#[test]
fn inline_style_stack() {
    let inline = InlineStyle::default();
    assert_eq!(
        inline,
        InlineStyle { emphasis_level: 0, style: None, parent_styles: Vec::new() }
    );
    let inline = inline.push_style(Style::new().bold());
    assert_eq!(inline.style, Some(Style::new().bold()));
    assert!(inline.parent_styles.is_empty());
    let inline = inline.push_changed_style(|style| style.italic());
    assert_eq!(inline.style, Some(Style::new().bold().italic()));
    assert_eq!(inline.parent_styles, vec![Style::new().bold()]);
    let inline = inline.pop_style();
    assert_eq!(inline.style, Some(Style::new().bold()));
    let inline = inline.pop_style();
    assert_eq!(inline.style, None);
    let inline = inline.pop_style().push_changed_style(|style| style.fg(Colour::Yellow));
    assert_eq!(inline.style, Some(Style::new().fg(Colour::Yellow)));
}

#[test]
fn inline_style_emphasis_parity() {
    let italic = |inline: &InlineStyle| inline.style.map_or(false, |style| style.is_italic);
    let inline = InlineStyle::default();
    assert!(!italic(&inline));
    let inline = inline.add_emphasis();
    assert_eq!(inline.emphasis_level, 1);
    assert!(italic(&inline));
    let inline = inline.add_emphasis();
    assert!(!italic(&inline));
    let inline = inline.add_emphasis();
    assert_eq!(inline.emphasis_level, 3);
    assert!(italic(&inline));
    assert_eq!(inline.parent_styles.len(), 2);
    let inline = inline.remove_emphasis();
    assert_eq!(inline.emphasis_level, 2);
    assert!(!italic(&inline));
    assert_eq!(inline.parent_styles.len(), 1);
    let inline = inline.toggle_italics_for_emphasis();
    assert!(!italic(&inline));
    assert_eq!(inline.parent_styles.len(), 2);
}

#[test]
fn end_of_emphasis_restores_the_style_before() {
    let before = || {
        InlineStyle::default().push_style(Style::new().bold()).push_style(Style::new().underline())
    };
    let after = before().add_emphasis().remove_emphasis();
    assert_eq!(after, before());
    let nested = before().add_emphasis().add_emphasis().remove_emphasis().remove_emphasis();
    assert_eq!(nested, before());
    let plain = InlineStyle::default().add_emphasis().remove_emphasis();
    assert_eq!(plain, InlineStyle::default());
}

#[test]
fn render_machine_highlights_text_in_known_languages() {
    let syntax_set = SyntaxSet::load_defaults_newlines();
    let theme = theme();
    let state = || RenderState::HighlightedCodeBlock("rust".to_string());
    let code = "fn f() {}\n";
    let mut out = String::new();
    let next = render_machine::process_event(
        &mut out,
        state(),
        text(code),
        &TerminalCapabilities::none(),
        &syntax_set,
        &theme,
    );
    assert_eq!(next, state());
    assert_eq!(out, code);
    let mut out = String::new();
    let next = render_machine::process_event(
        &mut out,
        state(),
        text(code),
        &TerminalCapabilities::ansi(),
        &syntax_set,
        &theme,
    );
    assert_eq!(next, state());
    assert!(out.contains("\x1b[38;2;"));
    assert_ne!(out, format!("\x1b[33m{}\x1b[0m", code));
    let mut out = String::new();
    render_machine::process_event(
        &mut out,
        state(),
        text(code),
        &TerminalCapabilities::ansi(),
        &SyntaxSet::default(),
        &theme,
    );
    assert_eq!(out, format!("\x1b[33m{}\x1b[0m", code));
}

#[test]
fn render_machine_says_what_it_can_process() {
    let deep = InlineStyle { emphasis_level: usize::MAX, style: None, parent_styles: Vec::new() };
    let start = Event::Start(Tag::Emphasis);
    let end = Event::End(Tag::Emphasis);
    assert!(!render_machine::is_processable(&RenderState::StyledInline(deep), &start));
    let plain = RenderState::StyledInline(InlineStyle::default());
    assert!(render_machine::is_processable(&plain, &start));
    assert!(!render_machine::is_processable(&plain, &end));
    let inner = RenderState::StyledInline(InlineStyle::default().add_emphasis());
    assert!(render_machine::is_processable(&inner, &end));
    let code = RenderState::HighlightedCodeBlock("rust".to_string());
    assert!(render_machine::is_processable(&code, &text("x")));
    assert!(render_machine::is_processable(&RenderState::Initial, &text("x")));
}

#[test]
fn render_machine_renders_documents_only() {
    let none = TerminalCapabilities::none();
    let syntax_set = SyntaxSet::default();
    let theme = theme();
    let try_render = |events: Vec<Event>| {
        let mut out = String::from("kept|");
        let done = render_machine::try_render(&mut out, events, &none, &syntax_set, &theme);
        (done, out)
    };
    assert_eq!(try_render(Vec::new()), (true, "kept|".to_string()));
    assert_eq!(
        try_render(vec![Event::Start(Tag::Paragraph), text("x"), Event::End(Tag::Paragraph)]),
        (true, "kept|x\n".to_string())
    );
    assert_eq!(
        try_render(vec![Event::Start(Tag::Paragraph), text("x")]),
        (false, "kept|".to_string())
    );
    assert_eq!(
        try_render(vec![Event::Start(Tag::Paragraph), Event::End(Tag::Emphasis)]),
        (false, "kept|".to_string())
    );
    assert_eq!(try_render(vec![text("stray")]), (false, "kept|".to_string()));
    assert_eq!(
        try_render(vec![Event::Start(Tag::Paragraph), Event::Rule, Event::End(Tag::Paragraph)]),
        (false, "kept|".to_string())
    );
}

#[test]
fn passes_render_what_can_be_styled_only() {
    let syntax_set = SyntaxSet::default();
    let theme = theme();
    assert_eq!(
        render::try_render(document(), &syntax_set, &theme),
        Some(render::render(document(), &syntax_set, &theme))
    );
    assert_eq!(render::try_render(Vec::new(), &syntax_set, &theme), Some(Vec::new()));
    let events = vec![text("a"), Event::End(Tag::Strong)];
    assert_eq!(render::try_render(events, &syntax_set, &theme), None);
    assert!(render::can_style_events(&markdown(document())));
    assert!(render::can_style_events(&Vec::new()));
    assert!(!render::can_style_events(&markdown(vec![Event::End(Tag::Heading(1))])));
    assert!(render::can_style_events(&markdown(vec![Event::End(Tag::Paragraph)])));
    assert!(!render::can_style_events(&markdown(vec![
        Event::Start(Tag::Strong),
        Event::End(Tag::Strong),
        Event::End(Tag::Emphasis),
    ])));
}

#[test]
fn text_styles_say_what_they_accept() {
    let mut styles = TextStyles::new();
    assert_eq!(styles.current_style, Style::new());
    assert_eq!(styles.emphasis_level, 0);
    assert!(styles.previous_styles.is_empty());
    let end = PassEvent::Markdown(Event::End(Tag::Emphasis));
    let start = PassEvent::Markdown(Event::Start(Tag::Emphasis));
    assert!(!styles.accepts(&end));
    assert!(styles.accepts(&start));
    styles.pass(&start);
    assert_eq!(styles.current_style, Style::new().italic());
    assert!(styles.accepts(&end));
    styles.pass(&end);
    assert_eq!(styles.current_style, Style::new());
    styles.emphasis_level = i32::MAX;
    assert!(!styles.accepts(&start));
    assert!(!styles.accepts(&PassEvent::Markdown(Event::Start(Tag::BlockQuote))));
    assert!(styles.accepts(&PassEvent::Markdown(Event::Start(Tag::Strong))));
    assert!(styles.accepts(&newline()));
}

#[test]
fn highlight_code_keeps_the_text() {
    let syntax_set = SyntaxSet::load_defaults_newlines();
    let lines = ["fn f() {\n", "    let x = \"a\";\n", "}\n"];
    let mut events = code_block("rust", &lines);
    events.push(text("after"));
    let texts = |events: &[PassEvent]| {
        let mut all = String::new();
        for event in events {
            match event {
                PassEvent::Markdown(Event::Text(text)) => all.push_str(text),
                PassEvent::Print(PrintEvent::StyledText(text, _)) => all.push_str(text),
                _ => {}
            }
        }
        all
    };
    let highlighted = render::highlight_code(markdown(events), &syntax_set, &theme());
    assert_eq!(texts(&highlighted), format!("{}after", lines.concat()));
    assert!(highlighted.len() > 8);
}

#[test]
fn render_machine_renders_headings_and_paragraphs() {
    let events = vec![
        Event::Start(Tag::Heading(2)),
        text("T"),
        Event::End(Tag::Heading(2)),
        Event::Start(Tag::Paragraph),
        text("a"),
        Event::Start(Tag::Strong),
        text("b"),
        Event::End(Tag::Strong),
        Event::SoftBreak,
        Event::Start(Tag::Emphasis),
        text("c"),
        Event::End(Tag::Emphasis),
        Event::Code("d".to_string()),
        Event::End(Tag::Paragraph),
        Event::Start(Tag::CodeBlock(CodeBlockKind::Indented)),
        text("e\n"),
        Event::End(Tag::CodeBlock(CodeBlockKind::Indented)),
    ];
    let mut out = String::new();
    render_machine::render(
        &mut out,
        events.clone(),
        &TerminalCapabilities::none(),
        &SyntaxSet::default(),
        &theme(),
    );
    assert_eq!(
        out,
        format!("\u{2504}\u{2504}T\n\nab\ncd\n\n{0}\ne\n{0}\n", "\u{2500}".repeat(20))
    );
    let mut out = String::new();
    render_machine::render(
        &mut out,
        events,
        &TerminalCapabilities::ansi(),
        &SyntaxSet::default(),
        &theme(),
    );
    let border = format!("\x1b[32m{}\x1b[0m\n", "\u{2500}".repeat(20));
    assert_eq!(
        out,
        format!(
            "\x1b[1;34m\u{2504}\u{2504}\x1b[0m\x1b[1;34mT\x1b[0m\n\na\x1b[1mb\x1b[0m\n\x1b[3mc\x1b[0m\x1b[33md\x1b[0m\n\n{0}\x1b[33me\n\x1b[0m{0}",
            border
        )
    );
}

#[test]
fn render_machine_states() {
    let none = TerminalCapabilities::none();
    let syntax_set = SyntaxSet::load_defaults_newlines();
    let theme = theme();
    let mut out = String::new();
    let fence = |name: &str| Event::Start(Tag::CodeBlock(CodeBlockKind::Fenced(name.to_string())));
    assert_eq!(
        render_machine::process_event(&mut out, RenderState::Initial, fence("rust"), &none, &syntax_set, &theme),
        RenderState::HighlightedCodeBlock("rust".to_string())
    );
    assert_eq!(
        render_machine::process_event(&mut out, RenderState::TopLevel, fence("nope"), &none, &syntax_set, &theme),
        RenderState::RawCodeBlock
    );
    assert_eq!(
        render_machine::process_event(&mut out, RenderState::Initial, fence(""), &none, &syntax_set, &theme),
        RenderState::RawCodeBlock
    );
    assert_eq!(
        render_machine::process_event(
            &mut out,
            RenderState::HighlightedCodeBlock("rust".to_string()),
            Event::End(Tag::CodeBlock(CodeBlockKind::Indented)),
            &none,
            &syntax_set,
            &theme
        ),
        RenderState::TopLevel
    );
    let before = out.clone();
    assert_eq!(
        render_machine::process_event(&mut out, RenderState::Initial, text("x"), &none, &syntax_set, &theme),
        RenderState::Error
    );
    assert_eq!(
        render_machine::process_event(&mut out, RenderState::RawCodeBlock, Event::Rule, &none, &syntax_set, &theme),
        RenderState::Error
    );
    assert_eq!(
        render_machine::process_event(&mut out, RenderState::Error, Event::Rule, &none, &syntax_set, &theme),
        RenderState::Error
    );
    assert_eq!(out, before);
    assert_eq!(
        render_machine::process_event(
            &mut out,
            RenderState::Initial,
            Event::Start(Tag::Paragraph),
            &none,
            &syntax_set,
            &theme
        ),
        RenderState::StyledInline(InlineStyle::default())
    );
}

#[test]
fn render_machine_helpers() {
    let none = TerminalCapabilities::none();
    let mut out = String::new();
    let state = render_machine::start_header(&mut out, 3, &none);
    assert_eq!(out, "\u{2504}\u{2504}\u{2504}");
    assert_eq!(
        state,
        RenderState::StyledInline(InlineStyle {
            emphasis_level: 0,
            style: Some(Style::new().fg(Colour::Blue).bold()),
            parent_styles: Vec::new(),
        })
    );
    let mut out = String::new();
    render_machine::write_border(&mut out, &none, 3);
    assert_eq!(out, "\u{2500}\u{2500}\u{2500}\n");
    let mut out = String::new();
    assert_eq!(render_machine::end_codeblock(&mut out, &none), RenderState::TopLevel);
    assert_eq!(out, format!("{}\n", "\u{2500}".repeat(20)));
    let mut out = String::new();
    let state = render_machine::start_codeblock(
        &mut out,
        CodeBlockKind::Fenced("rs".to_string()),
        &none,
        &SyntaxSet::default(),
    );
    assert_eq!(state, RenderState::RawCodeBlock);
    assert_eq!(out, format!("{}\n", "\u{2500}".repeat(20)));
}
