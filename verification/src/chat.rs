//! The chat loop as a state machine: from the state and one event to the
//! next state and the operations to carry out.

use vstd::prelude::*;
use crate::effect::{effect_views, outcome_is, Effect, EffectView, LoopError, Outcome};
use crate::endpoint::{
    spec_identifier, spec_role_of, EndpointRole, ReadinessEvent, CONNECTION_ID, LISTENER_ID,
    TERMINAL_CHUNK, TERMINAL_ID,
};
use crate::event::{LoopEvent, LoopEventView, ReadOutcome, ReadOutcomeView};
use crate::notice::{Notice, NoticeView, BELL};
use crate::registry::{
    has_id, lemma_position_is_unique, lemma_push_keeps_the_rest, lemma_without_keeps_the_rest,
    lookup, register_refusal, well_formed, without, RegisteredSource, Registry,
};

verus! {

/// How the chat is started.
#[derive(Clone, Copy, Debug, PartialEq, Eq, Structural)]
pub enum Mode {
    /// Wait for one peer to dial in.
    Serve,
    /// The peer has been dialled and the connection stands.
    Connect,
}

/// What the loop knows between two polls: the handle of the listener while
/// one waits, the handle of the connection while a peer is there, and
/// whether the terminal's input has ended.
#[derive(Clone, Copy, Debug, PartialEq, Eq)]
pub struct LoopState {
    pub listener: Option<i32>,
    pub connection: Option<i32>,
    pub terminal_at_eof: bool,
}

impl LoopState {
    /// The loop goes on while the terminal's input has not ended and a
    /// listener or a connection is left.
    pub open spec fn spec_should_continue(self) -> bool {
        !self.terminal_at_eof && (self.listener is Some || self.connection is Some)
    }

    /// Whether the loop goes on to another poll.
    pub fn should_continue(&self) -> (go_on: bool)
        ensures
            go_on == self.spec_should_continue(),
    {
        !self.terminal_at_eof && (self.listener.is_some() || self.connection.is_some())
    }
}

/// The chat loop as a mathematical value: the registered sources in the
/// order of their registration, the loop state, and the bytes gathered from
/// the connection that have not been printed yet.
pub struct ChatView {
    pub sources: Seq<RegisteredSource>,
    pub state: LoopState,
    pub inbound: Seq<u8>,
}

/// One step of the loop: the state it leads to and what it gives back.
pub struct Step {
    pub next: ChatView,
    pub outcome: Outcome,
}

/// The registry's entry for a role: under the role's own identifier.
pub open spec fn entry_for(role: EndpointRole, handle: i32) -> RegisteredSource {
    RegisteredSource { id: spec_identifier(role), role, handle }
}

/// A slot of the loop state says what the registry says of the role.
pub open spec fn slot_agrees(
    sources: Seq<RegisteredSource>,
    role: EndpointRole,
    slot: Option<i32>,
) -> bool {
    match slot {
        Some(handle) => lookup(sources, spec_identifier(role)) == Some(entry_for(role, handle)),
        None => !has_id(sources, spec_identifier(role)),
    }
}

/// The one batch of output that a drain of the connection ends in: the bell,
/// then the bytes gathered.
pub open spec fn batch(gathered: Seq<u8>) -> Seq<u8> {
    seq![BELL] + gathered
}

impl ChatView {
    /// Registry and loop state fit together: the registry keeps its
    /// promises, every source is registered under its role's identifier,
    /// the terminal is registered, and the listener and the connection are
    /// registered exactly while the loop state holds their handles.
    pub open spec fn coherent(self) -> bool {
        &&& well_formed(self.sources)
        &&& forall|i: int|
            0 <= i < self.sources.len() ==> (#[trigger] self.sources[i]).id == spec_identifier(
                self.sources[i].role,
            )
        &&& has_id(self.sources, TERMINAL_ID)
        &&& slot_agrees(self.sources, EndpointRole::Listener, self.state.listener)
        &&& slot_agrees(self.sources, EndpointRole::Connection, self.state.connection)
    }

    /// The step that changes nothing and ends the chat with `error`.
    pub open spec fn fails(self, error: LoopError) -> Step {
        Step { next: self, outcome: Err(error) }
    }

    /// The step that changes nothing and asks for `effects`.
    pub open spec fn asks(self, effects: Seq<EffectView>) -> Step {
        Step { next: self, outcome: Ok(effects) }
    }

    /// The poll reported a source. The report is told apart by its source
    /// alone. A terminal whose input has ended is not read again.
    pub open spec fn on_ready(self, report: ReadinessEvent) -> Step {
        match spec_role_of(report.source) {
            None => self.fails(LoopError::UnknownSource),
            Some(EndpointRole::Terminal) => if self.state.terminal_at_eof {
                self.asks(seq![])
            } else {
                self.asks(seq![EffectView::ReadTerminal { limit: TERMINAL_CHUNK }])
            },
            Some(EndpointRole::Listener) => if self.state.listener is Some {
                self.asks(seq![EffectView::Accept])
            } else {
                self.fails(LoopError::NoListener)
            },
            Some(EndpointRole::Connection) => if self.state.connection is Some {
                self.asks(seq![EffectView::ReadConnection])
            } else {
                self.fails(LoopError::NotConnected)
            },
        }
    }

    /// The listener handed out a connection: the connection takes the
    /// listener's place, in the registry and in the loop state at once.
    pub open spec fn on_accepted(self, handle: i32, peer: Seq<char>) -> Step {
        if self.state.listener is Some {
            Step {
                next: ChatView {
                    sources: without(self.sources, LISTENER_ID).push(
                        entry_for(EndpointRole::Connection, handle),
                    ),
                    state: LoopState {
                        listener: None,
                        connection: Some(handle),
                        terminal_at_eof: self.state.terminal_at_eof,
                    },
                    inbound: self.inbound,
                },
                outcome: Ok(
                    seq![
                        EffectView::Deregister { id: LISTENER_ID },
                        EffectView::Notify { notice: NoticeView::PeerAccepted { peer } },
                        EffectView::Register {
                            id: CONNECTION_ID,
                            role: EndpointRole::Connection,
                            handle,
                        },
                    ],
                ),
            }
        } else {
            self.fails(LoopError::NoListener)
        }
    }

    /// A read from the terminal ended. No bytes: the input has ended, and
    /// nothing is sent. Some bytes: all of them go to the peer if one is
    /// connected, and are discarded with a notice if none is; nothing is
    /// kept for later.
    pub open spec fn on_terminal_read(self, outcome: ReadOutcomeView) -> Step {
        match outcome {
            ReadOutcomeView::Bytes(bytes) => if bytes.len() == 0 {
                Step {
                    next: ChatView {
                        sources: self.sources,
                        state: LoopState {
                            listener: self.state.listener,
                            connection: self.state.connection,
                            terminal_at_eof: true,
                        },
                        inbound: self.inbound,
                    },
                    outcome: Ok(seq![EffectView::Notify { notice: NoticeView::TerminalEof }]),
                }
            } else if self.state.connection is Some {
                self.asks(seq![EffectView::SendToPeer { bytes }])
            } else {
                self.asks(seq![EffectView::Notify { notice: NoticeView::InputDropped }])
            },
            ReadOutcomeView::WouldBlock => self.asks(seq![]),
            ReadOutcomeView::Failed => self.fails(LoopError::TerminalReadFailed),
        }
    }

    /// What is printed when the peer's end of input is read: the batch
    /// gathered before it, if there is one, then the notice and the giving
    /// up of the connection, then the empty batch that the end itself is.
    pub open spec fn closing_effects(self) -> Seq<EffectView> {
        let farewell = seq![
            EffectView::Notify { notice: NoticeView::PeerClosed },
            EffectView::Deregister { id: CONNECTION_ID },
            EffectView::Print { bytes: batch(Seq::<u8>::empty()) },
        ];
        if self.inbound.len() == 0 {
            farewell
        } else {
            seq![EffectView::Print { bytes: batch(self.inbound) }] + farewell
        }
    }

    /// A read from the connection ended. Some bytes: they are gathered and
    /// the connection is read again. It would block: what was gathered is
    /// printed as one batch, even if that is nothing. No bytes: the peer has
    /// closed, and the connection is given up.
    pub open spec fn on_connection_read(self, outcome: ReadOutcomeView) -> Step {
        if self.state.connection is None {
            self.fails(LoopError::NotConnected)
        } else {
            match outcome {
                ReadOutcomeView::Bytes(bytes) => if bytes.len() == 0 {
                    Step {
                        next: ChatView {
                            sources: without(self.sources, CONNECTION_ID),
                            state: LoopState {
                                listener: self.state.listener,
                                connection: None,
                                terminal_at_eof: self.state.terminal_at_eof,
                            },
                            inbound: Seq::empty(),
                        },
                        outcome: Ok(self.closing_effects()),
                    }
                } else {
                    Step {
                        next: ChatView {
                            sources: self.sources,
                            state: self.state,
                            inbound: self.inbound + bytes,
                        },
                        outcome: Ok(seq![EffectView::ReadConnection]),
                    }
                },
                ReadOutcomeView::WouldBlock => Step {
                    next: ChatView {
                        sources: self.sources,
                        state: self.state,
                        inbound: Seq::empty(),
                    },
                    outcome: Ok(seq![EffectView::Print { bytes: batch(self.inbound) }]),
                },
                ReadOutcomeView::Failed => self.fails(LoopError::ConnectionReadFailed),
            }
        }
    }

    /// The step that an event leads to. A step that fails leaves the state
    /// as it was.
    pub open spec fn react(self, event: LoopEventView) -> Step {
        match event {
            LoopEventView::Ready(report) => self.on_ready(report),
            LoopEventView::Accepted { handle, peer } => self.on_accepted(handle, peer),
            LoopEventView::AcceptFailed => self.fails(LoopError::AcceptFailed),
            LoopEventView::TerminalRead(outcome) => self.on_terminal_read(outcome),
            LoopEventView::ConnectionRead(outcome) => self.on_connection_read(outcome),
        }
    }
}

/// The role that occupies the peer slot when the chat starts.
pub open spec fn opening_role(mode: Mode) -> EndpointRole {
    match mode {
        Mode::Serve => EndpointRole::Listener,
        Mode::Connect => EndpointRole::Connection,
    }
}

/// The chat loop at its start: the listener or the connection registered
/// first, the terminal second, nothing gathered, the terminal open.
pub open spec fn opening(mode: Mode, peer: i32, terminal: i32) -> ChatView {
    ChatView {
        sources: seq![
            entry_for(opening_role(mode), peer),
            entry_for(EndpointRole::Terminal, terminal),
        ],
        state: LoopState {
            listener: if mode == Mode::Serve {
                Some(peer)
            } else {
                None
            },
            connection: if mode == Mode::Connect {
                Some(peer)
            } else {
                None
            },
            terminal_at_eof: false,
        },
        inbound: Seq::empty(),
    }
}

/// The registrations that the start asks for, in their order.
pub open spec fn opening_effects(mode: Mode, peer: i32, terminal: i32) -> Seq<EffectView> {
    seq![
        EffectView::Register {
            id: spec_identifier(opening_role(mode)),
            role: opening_role(mode),
            handle: peer,
        },
        EffectView::Register { id: TERMINAL_ID, role: EndpointRole::Terminal, handle: terminal },
    ]
}

/// The chat starts in a state in which registry and loop state fit together.
pub proof fn lemma_opening_is_coherent(mode: Mode, peer: i32, terminal: i32)
    ensures
        opening(mode, peer, terminal).coherent(),
        opening(mode, peer, terminal).state.spec_should_continue(),
{
    let view = opening(mode, peer, terminal);
    let s = view.sources;
    assert(s.len() == 2);
    assert(s[0] == entry_for(opening_role(mode), peer));
    assert(s[1] == entry_for(EndpointRole::Terminal, terminal));
    assert(well_formed(s)) by {
        assert forall|role: EndpointRole| crate::registry::has_role(s, role) implies role
            == opening_role(mode) || role == EndpointRole::Terminal by {
            let k = choose|k: int| 0 <= k < s.len() && #[trigger] s[k].role == role;
            assert(k == 0 || k == 1);
        }
    }
    lemma_position_is_unique(s, spec_identifier(opening_role(mode)), 0);
    lemma_position_is_unique(s, TERMINAL_ID, 1);
    let other = if mode == Mode::Serve {
        CONNECTION_ID
    } else {
        LISTENER_ID
    };
    if has_id(s, other) {
        let k = choose|k: int| 0 <= k < s.len() && #[trigger] s[k].id == other;
        assert(k == 0 || k == 1);
    }
}

/// Every step leads from a state in which registry and loop state fit
/// together to another such state.
pub proof fn lemma_react_keeps_coherence(view: ChatView, event: LoopEventView)
    requires
        view.coherent(),
    ensures
        view.react(event).next.coherent(),
{
    let next = view.react(event).next;
    match event {
        LoopEventView::Accepted { handle, peer } => {
            if view.state.listener is Some {
                lemma_accept_keeps_coherence(view, handle, peer);
            }
        },
        LoopEventView::ConnectionRead(outcome) => {
            if view.state.connection is Some && outcome.is_end_of_input() {
                lemma_closing_keeps_coherence(view);
            }
        },
        _ => {},
    }
}

/// In a coherent state none of the sources holds a role whose identifier is
/// free.
proof fn lemma_free_identifier_free_role(view: ChatView, role: EndpointRole)
    requires
        view.coherent(),
        !has_id(view.sources, spec_identifier(role)),
    ensures
        !crate::registry::has_role(view.sources, role),
{
    if crate::registry::has_role(view.sources, role) {
        let k = choose|k: int| 0 <= k < view.sources.len() && #[trigger] view.sources[k].role == role;
        assert(view.sources[k].id == spec_identifier(role));
    }
}

/// The accept transition keeps registry and loop state together.
proof fn lemma_accept_keeps_coherence(view: ChatView, handle: i32, peer: Seq<char>)
    requires
        view.coherent(),
        view.state.listener is Some,
    ensures
        view.on_accepted(handle, peer).next.coherent(),
        register_refusal(
            without(view.sources, LISTENER_ID),
            CONNECTION_ID,
            EndpointRole::Connection,
        ) is None,
{
    let s = view.sources;
    let t = without(s, LISTENER_ID);
    let entry = entry_for(EndpointRole::Connection, handle);
    let p = crate::registry::position_of(s, LISTENER_ID);
    assert(has_id(s, LISTENER_ID));
    assert(0 <= p < s.len() && s[p].id == LISTENER_ID);
    assert(s[p].role == EndpointRole::Listener);
    lemma_without_keeps_the_rest(s, LISTENER_ID);
    lemma_free_identifier_free_role(view, EndpointRole::Connection);
    assert(!has_id(t, CONNECTION_ID));
    assert(!crate::registry::has_role(t, EndpointRole::Connection));
    assert(!crate::registry::has_role(t, EndpointRole::Listener));
    lemma_push_keeps_the_rest(t, entry);
    let u = t.push(entry);
    assert forall|i: int| 0 <= i < u.len() implies (#[trigger] u[i]).id == spec_identifier(
        u[i].role,
    ) by {
        if i < t.len() {
            assert(u[i] == t[i]);
            let k = if i < p { i } else { i + 1 };
            assert(t[i] == s[k]);
        }
    }
}

/// Giving up the connection keeps registry and loop state together.
proof fn lemma_closing_keeps_coherence(view: ChatView)
    requires
        view.coherent(),
        view.state.connection is Some,
    ensures
        view.on_connection_read(ReadOutcomeView::Bytes(Seq::empty())).next.coherent(),
{
    let s = view.sources;
    let t = without(s, CONNECTION_ID);
    let p = crate::registry::position_of(s, CONNECTION_ID);
    assert(has_id(s, CONNECTION_ID));
    assert(0 <= p < s.len() && s[p].id == CONNECTION_ID);
    lemma_without_keeps_the_rest(s, CONNECTION_ID);
    assert forall|i: int| 0 <= i < t.len() implies (#[trigger] t[i]).id == spec_identifier(
        t[i].role,
    ) by {
        let k = if i < p { i } else { i + 1 };
        assert(t[i] == s[k]);
    }
}

/// Adds one effect to the end of a list.
fn push_effect(list: &mut Vec<Effect>, effect: Effect)
    ensures
        effect_views(final(list)@) == effect_views(old(list)@).push(effect@),
{
    list.push(effect);
    assert(effect_views(list@) =~= effect_views(old(list)@).push(effect@));
}

/// Takes the gathered bytes into one batch of output and leaves nothing
/// gathered.
fn take_batch(gathered: &mut Vec<u8>) -> (bytes: Vec<u8>)
    ensures
        bytes@ == batch(old(gathered)@),
        final(gathered)@ == Seq::<u8>::empty(),
{
    let mut bytes: Vec<u8> = Vec::new();
    bytes.push(BELL);
    bytes.append(gathered);
    assert(bytes@ =~= batch(old(gathered)@));
    bytes
}

/// The chat loop: the registry of watched sources, the loop state and the
/// bytes gathered from the connection during a drain.
pub struct ChatLoop {
    registry: Registry,
    state: LoopState,
    inbound: Vec<u8>,
}

impl View for ChatLoop {
    type V = ChatView;

    closed spec fn view(&self) -> ChatView {
        ChatView { sources: self.registry@, state: self.state, inbound: self.inbound@ }
    }
}

impl ChatLoop {
    /// Registry and loop state fit together.
    pub open spec fn wf(&self) -> bool {
        self@.coherent()
    }

    /// Starts the chat with the listener (`Mode::Serve`) or the standing
    /// connection (`Mode::Connect`) under `peer` and the terminal under
    /// `terminal`, and asks for both to be registered with the poll.
    pub fn start(mode: Mode, peer: i32, terminal: i32) -> (started: (ChatLoop, Vec<Effect>))
        ensures
            started.0.wf(),
            started.0@ == opening(mode, peer, terminal),
            effect_views(started.1@) == opening_effects(mode, peer, terminal),
    {
        let role = match mode {
            Mode::Serve => EndpointRole::Listener,
            Mode::Connect => EndpointRole::Connection,
        };
        let state = match mode {
            Mode::Serve => LoopState { listener: Some(peer), connection: None, terminal_at_eof: false },
            Mode::Connect => LoopState {
                listener: None,
                connection: Some(peer),
                terminal_at_eof: false,
            },
        };
        let mut registry = Registry::new();
        let _ = registry.register(role.identifier(), role, peer);
        proof {
            lemma_opening_is_coherent(mode, peer, terminal);
            let one = seq![entry_for(role, peer)];
            assert(registry@ =~= one);
            assert(opening(mode, peer, terminal).sources =~= one.push(
                entry_for(EndpointRole::Terminal, terminal),
            ));
            if has_id(one, TERMINAL_ID) {
                let k = choose|k: int| 0 <= k < one.len() && #[trigger] one[k].id == TERMINAL_ID;
                assert(k == 0);
            }
            if crate::registry::has_role(one, EndpointRole::Terminal) {
                let k = choose|k: int|
                    0 <= k < one.len() && #[trigger] one[k].role == EndpointRole::Terminal;
                assert(k == 0);
            }
        }
        let _ = registry.register(TERMINAL_ID, EndpointRole::Terminal, terminal);
        let mut effects: Vec<Effect> = Vec::new();
        push_effect(&mut effects, Effect::Register { id: role.identifier(), role, handle: peer });
        push_effect(
            &mut effects,
            Effect::Register { id: TERMINAL_ID, role: EndpointRole::Terminal, handle: terminal },
        );
        let chat = ChatLoop { registry, state, inbound: Vec::new() };
        proof {
            assert(chat@.sources =~= opening(mode, peer, terminal).sources);
            assert(chat@.inbound =~= opening(mode, peer, terminal).inbound);
            assert(effect_views(effects@) =~= opening_effects(mode, peer, terminal));
        }
        (chat, effects)
    }

    /// The loop state as it stands.
    pub fn state(&self) -> (state: LoopState)
        ensures
            state == self@.state,
    {
        self.state
    }

    /// Whether the loop goes on to another poll: the terminal's input has
    /// not ended, and a listener or a connection is left.
    pub fn should_continue(&self) -> (go_on: bool)
        ensures
            go_on == self@.state.spec_should_continue(),
    {
        self.state.should_continue()
    }

    /// The source that is registered under `id`, if there is one.
    pub fn registered(&self, id: usize) -> (found: Option<RegisteredSource>)
        requires
            self.wf(),
        ensures
            found == lookup(self@.sources, id),
    {
        self.registry.find(id)
    }

    /// How many bytes have been gathered from the connection and not yet
    /// printed.
    pub fn gathered(&self) -> (n: usize)
        ensures
            n == self@.inbound.len(),
    {
        self.inbound.len()
    }

    /// Decides on a report of the poll: which operation the reported source
    /// calls for. The loop itself is left as it is.
    pub fn ready(&self, report: ReadinessEvent) -> (res: Result<Vec<Effect>, LoopError>)
        ensures
            outcome_is(res, self@.on_ready(report).outcome),
    {
        let mut effects: Vec<Effect> = Vec::new();
        match EndpointRole::of_identifier(report.source) {
            None => {
                return Err(LoopError::UnknownSource);
            },
            Some(EndpointRole::Terminal) => {
                if !self.state.terminal_at_eof {
                    push_effect(&mut effects, Effect::ReadTerminal { limit: TERMINAL_CHUNK });
                }
            },
            Some(EndpointRole::Listener) => {
                if self.state.listener.is_none() {
                    return Err(LoopError::NoListener);
                }
                push_effect(&mut effects, Effect::Accept);
            },
            Some(EndpointRole::Connection) => {
                if self.state.connection.is_none() {
                    return Err(LoopError::NotConnected);
                }
                push_effect(&mut effects, Effect::ReadConnection);
            },
        }
        Ok(effects)
    }

    /// Takes on the peer that the listener handed out: the listener leaves
    /// the registry and the loop state, the connection enters both, and the
    /// caller is asked to do the same with the poll and to announce the
    /// peer. Without a listener the step fails and changes nothing.
    pub fn accepted(&mut self, handle: i32, peer: String) -> (res: Result<Vec<Effect>, LoopError>)
        requires
            old(self).wf(),
        ensures
            final(self).wf(),
            final(self)@ == old(self)@.on_accepted(handle, peer@).next,
            outcome_is(res, old(self)@.on_accepted(handle, peer@).outcome),
    {
        if self.state.listener.is_none() {
            return Err(LoopError::NoListener);
        }
        proof {
            lemma_accept_keeps_coherence(self@, handle, peer@);
        }
        let _ = self.registry.deregister(LISTENER_ID);
        let _ = self.registry.register(CONNECTION_ID, EndpointRole::Connection, handle);
        self.state.listener = None;
        self.state.connection = Some(handle);
        let mut effects: Vec<Effect> = Vec::new();
        push_effect(&mut effects, Effect::Deregister { id: LISTENER_ID });
        push_effect(&mut effects, Effect::Notify { notice: Notice::PeerAccepted { peer } });
        push_effect(
            &mut effects,
            Effect::Register { id: CONNECTION_ID, role: EndpointRole::Connection, handle },
        );
        Ok(effects)
    }

    /// Decides on the result of a read from the terminal.
    pub fn terminal_read(&mut self, outcome: ReadOutcome) -> (res: Result<Vec<Effect>, LoopError>)
        requires
            old(self).wf(),
        ensures
            final(self).wf(),
            final(self)@ == old(self)@.on_terminal_read(outcome@).next,
            outcome_is(res, old(self)@.on_terminal_read(outcome@).outcome),
    {
        let mut effects: Vec<Effect> = Vec::new();
        match outcome {
            ReadOutcome::Bytes(bytes) => {
                if bytes.len() == 0 {
                    self.state.terminal_at_eof = true;
                    push_effect(&mut effects, Effect::Notify { notice: Notice::TerminalEof });
                } else if self.state.connection.is_some() {
                    push_effect(&mut effects, Effect::SendToPeer { bytes });
                } else {
                    push_effect(&mut effects, Effect::Notify { notice: Notice::InputDropped });
                }
            },
            ReadOutcome::WouldBlock => {},
            ReadOutcome::Failed => {
                return Err(LoopError::TerminalReadFailed);
            },
        }
        Ok(effects)
    }

    /// Decides on the result of a read from the connection.
    pub fn connection_read(&mut self, outcome: ReadOutcome) -> (res: Result<
        Vec<Effect>,
        LoopError,
    >)
        requires
            old(self).wf(),
        ensures
            final(self).wf(),
            final(self)@ == old(self)@.on_connection_read(outcome@).next,
            outcome_is(res, old(self)@.on_connection_read(outcome@).outcome),
    {
        if self.state.connection.is_none() {
            return Err(LoopError::NotConnected);
        }
        let mut effects: Vec<Effect> = Vec::new();
        match outcome {
            ReadOutcome::Bytes(bytes) => {
                if bytes.len() == 0 {
                    proof {
                        lemma_closing_keeps_coherence(self@);
                    }
                    if self.inbound.len() > 0 {
                        let bytes = take_batch(&mut self.inbound);
                        push_effect(&mut effects, Effect::Print { bytes });
                    }
                    let _ = self.registry.deregister(CONNECTION_ID);
                    self.state.connection = None;
                    push_effect(&mut effects, Effect::Notify { notice: Notice::PeerClosed });
                    push_effect(&mut effects, Effect::Deregister { id: CONNECTION_ID });
                    let bytes = take_batch(&mut self.inbound);
                    push_effect(&mut effects, Effect::Print { bytes });
                } else {
                    let mut bytes = bytes;
                    self.inbound.append(&mut bytes);
                    push_effect(&mut effects, Effect::ReadConnection);
                }
            },
            ReadOutcome::WouldBlock => {
                let bytes = take_batch(&mut self.inbound);
                push_effect(&mut effects, Effect::Print { bytes });
            },
            ReadOutcome::Failed => {
                return Err(LoopError::ConnectionReadFailed);
            },
        }
        Ok(effects)
    }

    /// One step of the loop: takes an event, moves to the state that
    /// `ChatView::react` gives for it, and hands back the operations to
    /// carry out, or the error that ends the chat.
    pub fn step(&mut self, event: LoopEvent) -> (res: Result<Vec<Effect>, LoopError>)
        requires
            old(self).wf(),
        ensures
            final(self).wf(),
            final(self)@ == old(self)@.react(event@).next,
            outcome_is(res, old(self)@.react(event@).outcome),
    {
        match event {
            LoopEvent::Ready(report) => self.ready(report),
            LoopEvent::Accepted { handle, peer } => self.accepted(handle, peer),
            LoopEvent::AcceptFailed => Err(LoopError::AcceptFailed),
            LoopEvent::TerminalRead(outcome) => self.terminal_read(outcome),
            LoopEvent::ConnectionRead(outcome) => self.connection_read(outcome),
        }
    }
}

} // verus!
