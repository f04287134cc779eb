//! Process markdown for TTY printing.
//!
//! This module and its submodules process a sequence of markdown events
//! into a sequence of what we call "print events", which turn markdown into
//! a line-oriented document for printing.
//!
//! Processing happens in multiple passes, each of which turns a certain
//! kind of markdown events into print events.
use crate::events::{Event, Tag};
use vstd::prelude::*;

pub mod events;
pub mod margins;

verus! {

/// An event for printing to TTY.
#[derive(Debug, PartialEq)]
pub enum PrintEvent {
    /// A text to print.
    PlainText(String),
    /// A margin at the end of block elements
    Margin,
}

/// An event resulting from a pass.
///
/// Either a raw Markdown event, or a print event.
#[derive(Debug, PartialEq)]
pub enum PassEvent {
    /// A raw markdown event.
    ///
    /// Normally something a pass didn't touch.
    Markdown(Event),
    /// A event for printing to a TTY.
    Print(PrintEvent),
}

/// What a pass makes of a sequence when it puts a sequence in place of
/// each item: the sequences that `expand` gives, one after the other.
pub open spec fn expanded<A, B>(items: Seq<A>, expand: spec_fn(A) -> Seq<B>) -> Seq<B>
    decreases items.len(),
{
    if items.len() == 0 {
        Seq::empty()
    } else {
        expanded(items.drop_last(), expand) + expand(items.last())
    }
}

/// A pass over the first items and the next item makes a pass over one
/// item more.
pub proof fn lemma_expanded_step<A, B>(items: Seq<A>, expand: spec_fn(A) -> Seq<B>, done: int)
    requires
        0 <= done < items.len(),
    ensures
        expanded(items.take(done + 1), expand) == expanded(items.take(done), expand) + expand(
            items[done],
        ),
{
    assert(items.take(done + 1).drop_last() =~= items.take(done));
    assert(items.take(done + 1).last() == items[done]);
}

/// Whether an element ends with a margin: the blocks do.
pub open spec fn ends_block(tag: Tag) -> bool {
    tag is Paragraph || tag is BlockQuote || tag is List || tag is Heading || tag is CodeBlock
}

/// An event, and a margin after it where it ends a block or is a rule.
pub open spec fn with_margin(event: PassEvent) -> Seq<PassEvent> {
    match event {
        PassEvent::Markdown(Event::End(tag)) => if ends_block(tag) {
            seq![event, PassEvent::Print(PrintEvent::Margin)]
        } else {
            seq![event]
        },
        PassEvent::Markdown(Event::Rule) => seq![event, PassEvent::Print(PrintEvent::Margin)],
        _ => seq![event],
    }
}

/// An event, with the text of a markdown event as text to print.
pub open spec fn as_plaintext(event: PassEvent) -> Seq<PassEvent> {
    match event {
        PassEvent::Markdown(Event::Text(text)) => seq![
            PassEvent::Print(PrintEvent::PlainText(text)),
        ],
        _ => seq![event],
    }
}

/// Whether an element is inline markup.
pub open spec fn is_inline_markup(tag: Tag) -> bool {
    tag is Strikethrough || tag is Strong || tag is Emphasis
}

/// An event, unless it starts or ends inline markup.
pub open spec fn without_inline_markup(event: PassEvent) -> Seq<PassEvent> {
    match event {
        PassEvent::Markdown(Event::Start(tag)) => if is_inline_markup(tag) {
            Seq::empty()
        } else {
            seq![event]
        },
        PassEvent::Markdown(Event::End(tag)) => if is_inline_markup(tag) {
            Seq::empty()
        } else {
            seq![event]
        },
        _ => seq![event],
    }
}

/// A markdown event as the event of a pass.
pub open spec fn lifted(event: Event) -> Seq<PassEvent> {
    seq![PassEvent::Markdown(event)]
}

/// Lift raw markdown events into pass events.
#[verifier::loop_isolation(false)]
pub fn lift_events(events: Vec<Event>) -> (lifted_events: Vec<PassEvent>)
    ensures
        lifted_events@ == expanded(events@, |event: Event| lifted(event)),
{
    let ghost all = events@;
    let ghost expand = |event: Event| lifted(event);
    let mut result: Vec<PassEvent> = Vec::new();
    for event in it: events
        invariant
            it.seq() == all,
            result@ == expanded(all.take(it.index() as int), expand),
    {
        proof {
            lemma_expanded_step(all, expand, it.index() as int);
        }
        result.push(PassEvent::Markdown(event));
        assert(result@ =~= expanded(all.take(it.index() + 1), expand));
    }
    assert(all.take(all.len() as int) =~= all);
    result
}

/// Whether an event ends a block or is a rule.
fn needs_margin(event: &PassEvent) -> (needed: bool)
    ensures
        needed == (with_margin(*event).len() == 2),
{
    match event {
        PassEvent::Markdown(Event::End(Tag::Paragraph)) => true,
        PassEvent::Markdown(Event::End(Tag::BlockQuote)) => true,
        PassEvent::Markdown(Event::End(Tag::List(_))) => true,
        PassEvent::Markdown(Event::End(Tag::Heading(_))) => true,
        PassEvent::Markdown(Event::End(Tag::CodeBlock(_))) => true,
        PassEvent::Markdown(Event::Rule) => true,
        _ => false,
    }
}

/// Inject margins into a sequence of events
#[verifier::loop_isolation(false)]
pub fn inject_margins(events: Vec<PassEvent>) -> (with_margins: Vec<PassEvent>)
    ensures
        with_margins@ == expanded(events@, |event: PassEvent| with_margin(event)),
{
    let ghost all = events@;
    let ghost expand = |event: PassEvent| with_margin(event);
    let mut result: Vec<PassEvent> = Vec::new();
    for event in it: events
        invariant
            it.seq() == all,
            result@ == expanded(all.take(it.index() as int), expand),
    {
        proof {
            lemma_expanded_step(all, expand, it.index() as int);
        }
        let margin = needs_margin(&event);
        result.push(event);
        if margin {
            result.push(PassEvent::Print(PrintEvent::Margin));
        }
        assert(result@ =~= expanded(all.take(it.index() + 1), expand));
    }
    assert(all.take(all.len() as int) =~= all);
    result
}

/// Turn the text of markdown events into plain text to print.
#[verifier::loop_isolation(false)]
pub fn text_to_plaintext(events: Vec<PassEvent>) -> (plain: Vec<PassEvent>)
    ensures
        plain@ == expanded(events@, |event: PassEvent| as_plaintext(event)),
{
    let ghost all = events@;
    let ghost expand = |event: PassEvent| as_plaintext(event);
    let mut result: Vec<PassEvent> = Vec::new();
    for event in it: events
        invariant
            it.seq() == all,
            result@ == expanded(all.take(it.index() as int), expand),
    {
        proof {
            lemma_expanded_step(all, expand, it.index() as int);
        }
        match event {
            PassEvent::Markdown(Event::Text(text)) => {
                result.push(PassEvent::Print(PrintEvent::PlainText(text)));
            },
            _ => {
                result.push(event);
            },
        }
        assert(result@ =~= expanded(all.take(it.index() + 1), expand));
    }
    assert(all.take(all.len() as int) =~= all);
    result
}

/// Whether an event starts or ends inline markup.
fn is_markup(event: &PassEvent) -> (markup: bool)
    ensures
        markup == (without_inline_markup(*event).len() == 0),
{
    match event {
        PassEvent::Markdown(Event::Start(Tag::Strikethrough)) => true,
        PassEvent::Markdown(Event::Start(Tag::Strong)) => true,
        PassEvent::Markdown(Event::Start(Tag::Emphasis)) => true,
        PassEvent::Markdown(Event::End(Tag::Strikethrough)) => true,
        PassEvent::Markdown(Event::End(Tag::Strong)) => true,
        PassEvent::Markdown(Event::End(Tag::Emphasis)) => true,
        _ => false,
    }
}

/// Remove the starts and ends of inline markup.
#[verifier::loop_isolation(false)]
pub fn remove_inline_markup(events: Vec<PassEvent>) -> (kept: Vec<PassEvent>)
    ensures
        kept@ == expanded(events@, |event: PassEvent| without_inline_markup(event)),
{
    let ghost all = events@;
    let ghost expand = |event: PassEvent| without_inline_markup(event);
    let mut result: Vec<PassEvent> = Vec::new();
    for event in it: events
        invariant
            it.seq() == all,
            result@ == expanded(all.take(it.index() as int), expand),
    {
        proof {
            lemma_expanded_step(all, expand, it.index() as int);
        }
        if !is_markup(&event) {
            result.push(event);
        }
        assert(result@ =~= expanded(all.take(it.index() + 1), expand));
    }
    assert(all.take(all.len() as int) =~= all);
    result
}

/// What all passes make of markdown events, in their order.
pub open spec fn processed(events: Seq<Event>) -> Seq<PassEvent> {
    expanded(
        expanded(
            expanded(
                expanded(events, |event: Event| lifted(event)),
                |event: PassEvent| with_margin(event),
            ),
            |event: PassEvent| as_plaintext(event),
        ),
        |event: PassEvent| without_inline_markup(event),
    )
}

/// Process Markdown events for printing.
///
/// Combines all passes in proper order.
pub fn process(events: Vec<Event>) -> (printed: Vec<PassEvent>)
    ensures
        printed@ == processed(events@),
{
    remove_inline_markup(text_to_plaintext(inject_margins(lift_events(events))))
}

} // verus!
