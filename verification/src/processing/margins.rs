//! The pass that puts a margin after each block.
use crate::events::{Event, Tag};
use crate::processing::events::{PassEvent, PrintEvent};
use crate::processing::{ends_block, expanded, lemma_expanded_step};
use vstd::prelude::*;

verus! {

/// An event, and a margin after it where it ends a block or is a rule.
pub open spec fn with_margin(event: PassEvent) -> Seq<PassEvent> {
    match event {
        PassEvent::Markdown(Event::End(tag)) => if ends_block(tag) {
            seq![event, PassEvent::Print(PrintEvent::Margin)]
        } else {
            seq![event]
        },
        PassEvent::Markdown(Event::Rule) => seq![event, PassEvent::Print(PrintEvent::Margin)],
        _ => seq![event],
    }
}

/// Whether an event ends a block or is a rule.
fn needs_margin(event: &PassEvent) -> (needed: bool)
    ensures
        needed == (with_margin(*event).len() == 2),
{
    match event {
        PassEvent::Markdown(Event::End(Tag::Paragraph)) => true,
        PassEvent::Markdown(Event::End(Tag::BlockQuote)) => true,
        PassEvent::Markdown(Event::End(Tag::List(_))) => true,
        PassEvent::Markdown(Event::End(Tag::Heading(_))) => true,
        PassEvent::Markdown(Event::End(Tag::CodeBlock(_))) => true,
        PassEvent::Markdown(Event::Rule) => true,
        _ => false,
    }
}

/// Inject margins into a sequence of events
#[verifier::loop_isolation(false)]
pub fn inject_margins(events: Vec<PassEvent>) -> (with_margins: Vec<PassEvent>)
    ensures
        with_margins@ == expanded(events@, |event: PassEvent| with_margin(event)),
{
    let ghost all = events@;
    let ghost expand = |event: PassEvent| with_margin(event);
    let mut result: Vec<PassEvent> = Vec::new();
    for event in it: events
        invariant
            it.seq() == all,
            result@ == expanded(all.take(it.index() as int), expand),
    {
        proof {
            lemma_expanded_step(all, expand, it.index() as int);
        }
        let margin = needs_margin(&event);
        result.push(event);
        if margin {
            result.push(PassEvent::Print(PrintEvent::Margin));
        }
        assert(result@ =~= expanded(all.take(it.index() + 1), expand));
    }
    assert(all.take(all.len() as int) =~= all);
    result
}

} // verus!
