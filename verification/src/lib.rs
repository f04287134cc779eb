//! Render markdown events for a terminal.
//!
//! The library turns a stream of structural markdown events into the text a
//! terminal shows: margins, indentation, list bullets, rules, borders, link
//! references and, where the terminal supports them, ANSI styles, inline
//! hyperlinks and marks.
use crate::highlighting::{empty_syntax_set, patterns_compile, syntax_for};
use crate::state_write::{
    all_possible, finish, is_possible, link_refs, run, step, write_event, LinkBuffer, State,
    StateData,
};
use syntect::highlighting::Theme;
use syntect::parsing::SyntaxSet;
use vstd::prelude::*;

pub use crate::events::{Alignment, CodeBlockKind, Event, LinkType, Tag};
pub use crate::terminal::ansi::{to_ansi, AnsiStyle};
pub use crate::terminal::{
    ITerm2Marks, LinkCapability, MarkCapability, OSC8Links, ResourceAccess, StyleCapability,
    TerminalCapabilities, TerminalSize,
};

pub mod events;
pub mod highlighting;
pub mod links;
pub mod processing;
pub mod render;
pub mod render_machine;
pub mod state_write;
pub mod stream;
pub mod style;
pub mod terminal;
pub mod text;

verus! {

/// Settings for markdown rendering.
#[derive(Debug)]
pub struct Settings {
    /// Capabilities of the terminal that the text is written for.
    pub terminal_capabilities: TerminalCapabilities,
    /// The size of the terminal that the text is written for.
    pub terminal_size: TerminalSize,
    /// Whether remote resource access is permitted.
    pub resource_access: ResourceAccess,
    /// Syntax set for syntax highlighting of code blocks.
    pub syntax_set: SyntaxSet,
}

impl Settings {
    /// Whether code can be highlighted with these settings without harm:
    /// where the terminal shows styles, the patterns of the syntax set
    /// compile. A terminal without styles gets no highlighted code.
    pub open spec fn can_highlight(self) -> bool {
        self.terminal_capabilities.style is Ansi ==> patterns_compile(self.syntax_set)
    }

    /// Settings without any syntax: code is never highlighted.
    pub fn without_syntaxes(
        terminal_capabilities: TerminalCapabilities,
        terminal_size: TerminalSize,
        resource_access: ResourceAccess,
    ) -> (settings: Settings)
        ensures
            settings.terminal_capabilities == terminal_capabilities,
            settings.terminal_size == terminal_size,
            settings.resource_access == resource_access,
            patterns_compile(settings.syntax_set),
            settings.can_highlight(),
            forall|token: Seq<char>|
                (#[trigger] syntax_for(settings.syntax_set, token)) is None,
    {
        Settings {
            terminal_capabilities,
            terminal_size,
            resource_access,
            syntax_set: empty_syntax_set(),
        }
    }
}

/// Whether a sequence of events is a document: each event can come where it
/// comes, and the last event leads back to the top level.
pub open spec fn well_formed(
    settings: Settings,
    theme: Theme,
    base_dir: Seq<char>,
    events: Seq<Event>,
) -> bool {
    &&& all_possible(settings, theme, base_dir, State::initial(), LinkBuffer::initial(), events)
    &&& run(
        settings,
        theme,
        base_dir,
        State::initial(),
        LinkBuffer::initial(),
        events,
    ).state is TopLevel
}

/// What a terminal gets for a document: what its events write, one after
/// the other from the initial state, and then the references of the links
/// that still wait.
pub open spec fn rendered(
    settings: Settings,
    theme: Theme,
    base_dir: Seq<char>,
    events: Seq<Event>,
) -> Seq<char> {
    let end = run(settings, theme, base_dir, State::initial(), LinkBuffer::initial(), events);
    end.output + link_refs(settings.terminal_capabilities, end.data.pending_links)
}

/// Write markdown to a TTY.
///
/// Takes the markdown `events` one after the other, formats each for the
/// terminal that `settings` describe and appends the result to `out`.
/// `theme` gives the colours of highlighted code. `base_dir` is the
/// directory that the document was read from: relative link targets are
/// files below it.
///
/// The events must be a document, and the settings such that code can be
/// highlighted.
pub fn push_tty(
    settings: &Settings,
    theme: &Theme,
    out: &mut String,
    base_dir: &str,
    events: Vec<Event>,
)
    requires
        settings.can_highlight(),
        well_formed(*settings, *theme, base_dir@, events@),
    ensures
        final(out)@ == old(out)@ + rendered(*settings, *theme, base_dir@, events@),
{
    let mut state = State::default();
    let mut data = StateData::default();
    let ghost all = events@;
    let ghost end = run(
        *settings,
        *theme,
        base_dir@,
        State::initial(),
        LinkBuffer::initial(),
        all,
    );
    assert(all.skip(0) =~= all);
    for event in it: events
        invariant
            it.seq() == all,
            settings.can_highlight(),
            all_possible(*settings, *theme, base_dir@, state, data@, all.skip(it.index() as int)),
            run(*settings, *theme, base_dir@, state, data@, all.skip(it.index() as int)).state
                == end.state,
            run(*settings, *theme, base_dir@, state, data@, all.skip(it.index() as int)).data
                == end.data,
            out@ + run(
                *settings,
                *theme,
                base_dir@,
                state,
                data@,
                all.skip(it.index() as int),
            ).output == old(out)@ + end.output,
    {
        let ghost rest = all.skip(it.index() as int);
        let ghost first = step(*settings, *theme, base_dir@, state, data@, event);
        proof {
            assert(rest.len() > 0);
            assert(rest[0] == event);
            assert(rest.skip(1) =~= all.skip(it.index() + 1));
        }
        let ghost before = out@;
        let next = write_event(out, settings, base_dir, theme, state, data, event);
        state = next.0;
        data = next.1;
        proof {
            let tail = run(*settings, *theme, base_dir@, state, data@, rest.skip(1));
            assert(out@ + tail.output =~= before + (first.output + tail.output));
        }
    }
    proof {
        assert(all.skip(all.len() as int) =~= Seq::<Event>::empty());
        assert(out@ =~= old(out)@ + end.output);
    }
    finish(out, settings, state, data);
    assert(out@ =~= old(out)@ + rendered(*settings, *theme, base_dir@, all));
}

/// Write markdown to a TTY, if the events are a document.
///
/// Does what `push_tty` does where `events` are a document, and says so.
/// Where they are not, that is where an event comes that cannot come there
/// or where the last event does not lead back to the top level, nothing is
/// appended to `out`. The settings must be such that code can be
/// highlighted.
#[verifier::loop_isolation(false)]
pub fn try_push_tty(
    settings: &Settings,
    theme: &Theme,
    out: &mut String,
    base_dir: &str,
    events: Vec<Event>,
) -> (done: bool)
    requires
        settings.can_highlight(),
    ensures
        done == well_formed(*settings, *theme, base_dir@, events@),
        done ==> final(out)@ == old(out)@ + rendered(*settings, *theme, base_dir@, events@),
        !done ==> final(out)@ == old(out)@,
{
    let mut text = String::new();
    let mut state = State::default();
    let mut data = StateData::default();
    let ghost all = events@;
    let ghost end = run(
        *settings,
        *theme,
        base_dir@,
        State::initial(),
        LinkBuffer::initial(),
        all,
    );
    let ghost possible = all_possible(
        *settings,
        *theme,
        base_dir@,
        State::initial(),
        LinkBuffer::initial(),
        all,
    );
    assert(all.skip(0) =~= all);
    assert(text@ + end.output =~= end.output);
    for event in it: events
        invariant
            it.seq() == all,
            out@ == old(out)@,
            all_possible(*settings, *theme, base_dir@, state, data@, all.skip(it.index() as int))
                == possible,
            run(*settings, *theme, base_dir@, state, data@, all.skip(it.index() as int)).state
                == end.state,
            run(*settings, *theme, base_dir@, state, data@, all.skip(it.index() as int)).data
                == end.data,
            text@ + run(
                *settings,
                *theme,
                base_dir@,
                state,
                data@,
                all.skip(it.index() as int),
            ).output == end.output,
    {
        let ghost rest = all.skip(it.index() as int);
        let ghost first = step(*settings, *theme, base_dir@, state, data@, event);
        proof {
            assert(rest.len() > 0);
            assert(rest[0] == event);
            assert(rest.skip(1) =~= all.skip(it.index() + 1));
        }
        if !is_possible(settings, &state, &data, &event) {
            assert(!all_possible(*settings, *theme, base_dir@, state, data@, rest));
            return false;
        }
        let ghost before = text@;
        let next = write_event(&mut text, settings, base_dir, theme, state, data, event);
        state = next.0;
        data = next.1;
        proof {
            let tail = run(*settings, *theme, base_dir@, state, data@, rest.skip(1));
            assert(text@ + tail.output =~= before + (first.output + tail.output));
        }
    }
    proof {
        assert(all.skip(all.len() as int) =~= Seq::<Event>::empty());
        assert(text@ =~= end.output);
    }
    match state {
        State::TopLevel(_) => {
            finish(&mut text, settings, state, data);
            out.append(text.as_str());
            true
        },
        _ => false,
    }
}

} // verus!

