//! Reading the poll's own event values into the library's `ReadinessEvent`.

use vstd::prelude::*;
use crate::endpoint::ReadinessEvent;

verus! {

#[verifier::external_type_specification]
#[verifier::external_body]
pub struct ExEvent(mio::event::Event);

/// The number inside the token that a poll event carries.
pub uninterp spec fn event_source(event: mio::event::Event) -> usize;

/// Whether a poll event's readiness set includes readable readiness.
pub uninterp spec fn event_readable(event: mio::event::Event) -> bool;

/// Calls `mio::event::Event::token` and unwraps the token with mio's
/// `From<Token> for usize`. Trusted: the result is the number the event was
/// made with, which `event_source` names.
#[verifier::external_body]
fn token_number(event: &mio::event::Event) -> (source: usize)
    ensures
        source == event_source(*event),
{
    usize::from(event.token())
}

/// Calls `mio::event::Event::readiness` and `mio::Ready::is_readable` on it.
/// Trusted: the result says whether the readable bit is in the event's
/// readiness set, which `event_readable` names.
#[verifier::external_body]
fn readable_flag(event: &mio::event::Event) -> (readable: bool)
    ensures
        readable == event_readable(*event),
{
    event.readiness().is_readable()
}

/// Takes from a poll event the two things the chat loop looks at: the source
/// it concerns and whether that source is readable.
pub fn observe(event: &mio::event::Event) -> (seen: ReadinessEvent)
    ensures
        seen.source == event_source(*event),
        seen.readable == event_readable(*event),
{
    ReadinessEvent { source: token_number(event), readable: readable_flag(event) }
}

} // verus!
