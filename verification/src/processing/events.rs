//! The events of the passes that keep the scopes of highlighted text.
use crate::events::Event;
use crate::processing::expanded;
use crate::processing::lemma_expanded_step;
use syntect::parsing::Scope;
use vstd::prelude::*;

verus! {

/// A scope of a syntax definition.
#[verifier::external_type_specification]
#[verifier::external_body]
pub struct ExScope(syntect::parsing::Scope);

/// An event for printing to TTY.
#[derive(Debug, PartialEq)]
pub enum PrintEvent {
    /// A text to print, with its highlighting scope.
    ScopedText(Vec<Scope>, String),
    /// A margin at the end of block elements
    Margin,
}

/// An event resulting from a pass.
///
/// Either a raw Markdown event, or a print event.
#[derive(Debug, PartialEq)]
pub enum PassEvent {
    /// A raw markdown event.
    ///
    /// Normally something a pass didn't touch.
    Markdown(Event),
    /// A event for printing to a TTY.
    Print(PrintEvent),
}

/// A markdown event as the event of a pass.
pub open spec fn lifted(event: Event) -> Seq<PassEvent> {
    seq![PassEvent::Markdown(event)]
}

/// Lift raw markdown events into pass events.
#[verifier::loop_isolation(false)]
pub fn lift_events(events: Vec<Event>) -> (lifted_events: Vec<PassEvent>)
    ensures
        lifted_events@ == expanded(events@, |event: Event| lifted(event)),
{
    let ghost all = events@;
    let ghost expand = |event: Event| lifted(event);
    let mut result: Vec<PassEvent> = Vec::new();
    for event in it: events
        invariant
            it.seq() == all,
            result@ == expanded(all.take(it.index() as int), expand),
    {
        proof {
            lemma_expanded_step(all, expand, it.index() as int);
        }
        result.push(PassEvent::Markdown(event));
        assert(result@ =~= expanded(all.take(it.index() + 1), expand));
    }
    assert(all.take(all.len() as int) =~= all);
    result
}

} // verus!
