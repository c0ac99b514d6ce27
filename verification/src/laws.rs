//! What holds of the chat loop over one step and over any run of steps.

use vstd::prelude::*;
use crate::chat::{ChatView, LoopState};
use crate::effect::{EffectView, LoopError, Outcome};
use crate::endpoint::{EndpointRole, CONNECTION_ID, LISTENER_ID};
use crate::event::{LoopEventView, ReadOutcomeView};
use crate::notice::NoticeView;
use crate::registry::{has_id, has_role, lookup, position_of};

verus! {

/// The state that a run of events leads to, each event taken in its turn.
pub open spec fn run(view: ChatView, events: Seq<LoopEventView>) -> ChatView
    decreases events.len(),
{
    if events.len() == 0 {
        view
    } else {
        run(view.react(events[0]).next, events.drop_first())
    }
}

/// No effect of the outcome asks for a read from the terminal.
pub open spec fn asks_no_terminal_read(outcome: Outcome) -> bool {
    outcome matches Ok(effects) ==> forall|i: int|
        0 <= i < effects.len() ==> !(#[trigger] effects[i] is ReadTerminal)
}

/// No effect of the outcome asks for a read from the connection.
pub open spec fn asks_no_connection_read(outcome: Outcome) -> bool {
    outcome matches Ok(effects) ==> forall|i: int|
        0 <= i < effects.len() ==> !(#[trigger] effects[i] is ReadConnection)
}

/// No effect of the outcome writes to the connection.
pub open spec fn sends_nothing(outcome: Outcome) -> bool {
    outcome matches Ok(effects) ==> forall|i: int|
        0 <= i < effects.len() ==> !(#[trigger] effects[i] is SendToPeer)
}

/// No effect of the outcome asks the listener for a connection, and none
/// registers anything.
pub open spec fn accepts_nothing(outcome: Outcome) -> bool {
    outcome matches Ok(effects) ==> forall|i: int|
        0 <= i < effects.len() ==> !(#[trigger] effects[i] is Accept) && !(effects[i] is Register)
}

/// While registry and loop state fit together, a listener and a connection
/// are never there at the same time.
pub proof fn law_one_peer_slot(view: ChatView)
    requires
        view.coherent(),
    ensures
        !(view.state.listener is Some && view.state.connection is Some),
        !(has_role(view.sources, EndpointRole::Listener) && has_role(
            view.sources,
            EndpointRole::Connection,
        )),
{
    if view.state.listener is Some && view.state.connection is Some {
        let a = position_of(view.sources, LISTENER_ID);
        let b = position_of(view.sources, CONNECTION_ID);
        assert(has_id(view.sources, LISTENER_ID));
        assert(has_id(view.sources, CONNECTION_ID));
        assert(view.sources[a].role == EndpointRole::Listener);
        assert(view.sources[b].role == EndpointRole::Connection);
    }
}

/// Any run of events from a state in which registry and loop state fit
/// together ends in such a state.
pub proof fn law_run_keeps_coherence(view: ChatView, events: Seq<LoopEventView>)
    requires
        view.coherent(),
    ensures
        run(view, events).coherent(),
    decreases events.len(),
{
    if events.len() > 0 {
        crate::chat::lemma_react_keeps_coherence(view, events[0]);
        law_run_keeps_coherence(view.react(events[0]).next, events.drop_first());
    }
}

/// A read of no bytes from the terminal sets the end of the terminal's
/// input, whatever the state, and writes nothing to the connection.
pub proof fn law_terminal_eof_sends_nothing(view: ChatView)
    ensures
        view.on_terminal_read(ReadOutcomeView::Bytes(Seq::empty())).next.state.terminal_at_eof,
        sends_nothing(view.on_terminal_read(ReadOutcomeView::Bytes(Seq::empty())).outcome),
        view.on_terminal_read(ReadOutcomeView::Bytes(Seq::empty())).outcome == Ok::<
            Seq<EffectView>,
            LoopError,
        >(seq![EffectView::Notify { notice: NoticeView::TerminalEof }]),
{
    let effects = seq![EffectView::Notify { notice: NoticeView::TerminalEof }];
    assert(forall|i: int| 0 <= i < effects.len() ==> !(#[trigger] effects[i] is SendToPeer));
}

/// Bytes read from the terminal while no peer is connected are discarded:
/// the one effect is the notice that says so, and the state stays as it
/// was, so nothing is kept for later.
pub proof fn law_input_without_peer_is_dropped(view: ChatView, bytes: Seq<u8>)
    requires
        bytes.len() > 0,
        view.state.connection is None,
    ensures
        view.on_terminal_read(ReadOutcomeView::Bytes(bytes)).next == view,
        view.on_terminal_read(ReadOutcomeView::Bytes(bytes)).outcome == Ok::<
            Seq<EffectView>,
            LoopError,
        >(seq![EffectView::Notify { notice: NoticeView::InputDropped }]),
{
}

/// Bytes read from the terminal while a peer is connected go to the peer,
/// all of them and unchanged, and the state stays as it was.
pub proof fn law_input_with_peer_is_forwarded(view: ChatView, bytes: Seq<u8>)
    requires
        bytes.len() > 0,
        view.state.connection is Some,
    ensures
        view.on_terminal_read(ReadOutcomeView::Bytes(bytes)).next == view,
        view.on_terminal_read(ReadOutcomeView::Bytes(bytes)).outcome == Ok::<
            Seq<EffectView>,
            LoopError,
        >(seq![EffectView::SendToPeer { bytes }]),
{
}

/// Once the terminal's input has ended it stays ended, and no step asks for
/// a read from the terminal.
pub proof fn law_terminal_eof_is_final(view: ChatView, event: LoopEventView)
    requires
        view.state.terminal_at_eof,
    ensures
        view.react(event).next.state.terminal_at_eof,
        asks_no_terminal_read(view.react(event).outcome),
{
    let outcome = view.react(event).outcome;
    if let Ok(effects) = outcome {
        assert forall|i: int| 0 <= i < effects.len() implies !(#[trigger] effects[i]
            is ReadTerminal) by {
            if effects[i] is ReadTerminal {
                lemma_only_ready_asks_terminal_read(view, event, i);
            }
        }
    }
}

/// A read from the terminal is asked for only on a report of the poll, and
/// only while the terminal's input has not ended.
proof fn lemma_only_ready_asks_terminal_read(view: ChatView, event: LoopEventView, i: int)
    requires
        view.react(event).outcome is Ok,
        0 <= i < view.react(event).outcome->Ok_0.len(),
        view.react(event).outcome->Ok_0[i] is ReadTerminal,
    ensures
        !view.state.terminal_at_eof,
        event is Ready,
{
    match event {
        LoopEventView::ConnectionRead(outcome) => {
            if outcome.is_end_of_input() {
                let effects = view.closing_effects();
                assert(!(effects[i] is ReadTerminal));
            }
        },
        _ => {},
    }
}

/// Once the terminal's input has ended, no later cycle reads the terminal:
/// after any run of events the input is still ended, and whatever event
/// comes next, the step asks for no read from the terminal.
pub proof fn law_no_terminal_read_after_eof(
    view: ChatView,
    events: Seq<LoopEventView>,
    event: LoopEventView,
)
    requires
        view.state.terminal_at_eof,
    ensures
        run(view, events).state.terminal_at_eof,
        asks_no_terminal_read(run(view, events).react(event).outcome),
    decreases events.len(),
{
    if events.len() == 0 {
        law_terminal_eof_is_final(view, event);
    } else {
        law_terminal_eof_is_final(view, events[0]);
        law_no_terminal_read_after_eof(view.react(events[0]).next, events.drop_first(), event);
    }
}

/// Without a listener, a step leaves the loop without a listener, asks for
/// no accept and registers nothing; a connection handed in is refused.
pub proof fn law_listener_stays_gone(view: ChatView, event: LoopEventView)
    requires
        view.coherent(),
        view.state.listener is None,
    ensures
        view.react(event).next.coherent(),
        view.react(event).next.state.listener is None,
        !has_id(view.react(event).next.sources, LISTENER_ID),
        accepts_nothing(view.react(event).outcome),
        event is Accepted ==> view.react(event).outcome == Err::<Seq<EffectView>, LoopError>(
            LoopError::NoListener,
        ),
        view.state.connection is None ==> view.react(event).next.state.connection is None,
{
    crate::chat::lemma_react_keeps_coherence(view, event);
    let outcome = view.react(event).outcome;
    if let Ok(effects) = outcome {
        assert forall|i: int| 0 <= i < effects.len() implies !(#[trigger] effects[i] is Accept)
            && !(effects[i] is Register) by {
            match event {
                LoopEventView::ConnectionRead(read) => {
                    if read.is_end_of_input() && view.state.connection is Some {
                        let closing = view.closing_effects();
                        assert(!(closing[i] is Accept) && !(closing[i] is Register));
                    }
                },
                _ => {},
            }
        }
    }
}

/// The accept transition happens once. After a peer has been accepted the
/// listener is out of the registry and out of the loop state, and it stays
/// out over any run of events: no later step asks for an accept or
/// registers anything, and a further connection handed in is refused.
pub proof fn law_accept_is_exactly_once(
    view: ChatView,
    handle: i32,
    peer: Seq<char>,
    events: Seq<LoopEventView>,
    event: LoopEventView,
)
    requires
        view.coherent(),
        view.state.listener is Some,
    ensures
        view.on_accepted(handle, peer).next.state.listener is None,
        view.on_accepted(handle, peer).next.state.connection == Some(handle),
        lookup(view.on_accepted(handle, peer).next.sources, CONNECTION_ID) == Some(
            crate::chat::entry_for(EndpointRole::Connection, handle),
        ),
        run(view.on_accepted(handle, peer).next, events).state.listener is None,
        !has_id(run(view.on_accepted(handle, peer).next, events).sources, LISTENER_ID),
        accepts_nothing(run(view.on_accepted(handle, peer).next, events).react(event).outcome),
        event is Accepted ==> run(view.on_accepted(handle, peer).next, events).react(
            event,
        ).outcome == Err::<Seq<EffectView>, LoopError>(LoopError::NoListener),
{
    let accepted = view.on_accepted(handle, peer).next;
    crate::chat::lemma_react_keeps_coherence(view, LoopEventView::Accepted { handle, peer });
    assert(accepted == view.react(LoopEventView::Accepted { handle, peer }).next);
    lemma_run_without_listener(accepted, events);
    law_listener_stays_gone(run(accepted, events), event);
}

/// A run of events from a state without a listener ends without a listener;
/// if there was no connection either, it ends without a connection.
proof fn lemma_run_without_listener(view: ChatView, events: Seq<LoopEventView>)
    requires
        view.coherent(),
        view.state.listener is None,
    ensures
        run(view, events).coherent(),
        run(view, events).state.listener is None,
        !has_id(run(view, events).sources, LISTENER_ID),
        view.state.connection is None ==> run(view, events).state.connection is None,
    decreases events.len(),
{
    if events.len() > 0 {
        law_listener_stays_gone(view, events[0]);
        lemma_run_without_listener(view.react(events[0]).next, events.drop_first());
    }
}

/// A read of no bytes from the connection gives the connection up, and it
/// does not come back: after any run of events no peer is connected, no
/// step asks for a read from the connection, and a read from the
/// connection that is reported all the same is refused.
pub proof fn law_peer_close_is_final(
    view: ChatView,
    events: Seq<LoopEventView>,
    event: LoopEventView,
)
    requires
        view.coherent(),
        view.state.connection is Some,
    ensures
        view.on_connection_read(ReadOutcomeView::Bytes(Seq::empty())).next.state.connection
            is None,
        !has_id(
            view.on_connection_read(ReadOutcomeView::Bytes(Seq::empty())).next.sources,
            CONNECTION_ID,
        ),
        run(
            view.on_connection_read(ReadOutcomeView::Bytes(Seq::empty())).next,
            events,
        ).state.connection is None,
        asks_no_connection_read(
            run(view.on_connection_read(ReadOutcomeView::Bytes(Seq::empty())).next, events).react(
                event,
            ).outcome,
        ),
        event is ConnectionRead ==> run(
            view.on_connection_read(ReadOutcomeView::Bytes(Seq::empty())).next,
            events,
        ).react(event).outcome == Err::<Seq<EffectView>, LoopError>(LoopError::NotConnected),
        !run(
            view.on_connection_read(ReadOutcomeView::Bytes(Seq::empty())).next,
            events,
        ).state.spec_should_continue(),
{
    let end = LoopEventView::ConnectionRead(ReadOutcomeView::Bytes(Seq::empty()));
    let closed = view.on_connection_read(ReadOutcomeView::Bytes(Seq::empty())).next;
    assert(closed == view.react(end).next);
    law_one_peer_slot(view);
    crate::chat::lemma_react_keeps_coherence(view, end);
    lemma_run_without_listener(closed, events);
    let later = run(closed, events);
    let outcome = later.react(event).outcome;
    if let Ok(effects) = outcome {
        assert forall|i: int| 0 <= i < effects.len() implies !(#[trigger] effects[i]
            is ReadConnection) by {
        }
    }
}

/// The loop goes on exactly while the terminal's input has not ended and a
/// listener or a connection is left.
pub proof fn law_termination_policy(state: LoopState)
    ensures
        state.spec_should_continue() <==> !state.terminal_at_eof && (state.listener is Some
            || state.connection is Some),
        state.terminal_at_eof ==> !state.spec_should_continue(),
        state.listener is None && state.connection is None ==> !state.spec_should_continue(),
{
}

/// The chunks of a drain put end to end.
pub open spec fn joined(chunks: Seq<Seq<u8>>) -> Seq<u8>
    decreases chunks.len(),
{
    if chunks.len() == 0 {
        Seq::empty()
    } else {
        chunks[0] + joined(chunks.drop_first())
    }
}

/// The events of a drain in which each read gives one of the chunks.
pub open spec fn reads_of(chunks: Seq<Seq<u8>>) -> Seq<LoopEventView> {
    Seq::new(chunks.len(), |i: int| LoopEventView::ConnectionRead(ReadOutcomeView::Bytes(chunks[i])))
}

/// A drain relays what the peer sent, complete, in order and unchanged.
/// While reads give bytes, each step asks for the next read and changes
/// nothing but what is gathered; when a read would block, the one effect is
/// to print the bell followed by all the chunks end to end, and nothing
/// stays gathered.
pub proof fn law_drain_relays_every_byte(view: ChatView, chunks: Seq<Seq<u8>>)
    requires
        view.state.connection is Some,
        forall|i: int| 0 <= i < chunks.len() ==> (#[trigger] chunks[i]).len() > 0,
    ensures
        run(view, reads_of(chunks)).sources == view.sources,
        run(view, reads_of(chunks)).state == view.state,
        run(view, reads_of(chunks)).inbound == view.inbound + joined(chunks),
        run(view, reads_of(chunks)).on_connection_read(ReadOutcomeView::WouldBlock).outcome == Ok::<
            Seq<EffectView>,
            LoopError,
        >(seq![EffectView::Print { bytes: crate::chat::batch(view.inbound + joined(chunks)) }]),
        run(view, reads_of(chunks)).on_connection_read(ReadOutcomeView::WouldBlock).next == (ChatView {
            sources: view.sources,
            state: view.state,
            inbound: Seq::empty(),
        }),
    decreases chunks.len(),
{
    if chunks.len() == 0 {
        assert(reads_of(chunks).len() == 0);
        assert(view.inbound + joined(chunks) =~= view.inbound);
    } else {
        let first = view.react(reads_of(chunks)[0]).next;
        assert(chunks[0].len() > 0);
        assert(first.inbound == view.inbound + chunks[0]);
        assert(reads_of(chunks).drop_first() =~= reads_of(chunks.drop_first()));
        law_drain_relays_every_byte(first, chunks.drop_first());
        assert((view.inbound + chunks[0]) + joined(chunks.drop_first()) =~= view.inbound + joined(
            chunks,
        ));
    }
}

/// Each read of a drain that gives bytes asks for exactly one more read.
pub proof fn law_drain_reads_on(view: ChatView, bytes: Seq<u8>)
    requires
        view.state.connection is Some,
        bytes.len() > 0,
    ensures
        view.on_connection_read(ReadOutcomeView::Bytes(bytes)).outcome == Ok::<
            Seq<EffectView>,
            LoopError,
        >(seq![EffectView::ReadConnection]),
{
}

} // verus!
