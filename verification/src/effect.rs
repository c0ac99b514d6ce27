//! What the chat loop asks its caller to do, and how it can fail.

use vstd::prelude::*;
use crate::endpoint::EndpointRole;
use crate::notice::{Notice, NoticeView};

verus! {

/// One operation for the caller to carry out. A read or an accept is
/// answered with the matching event; the others need no answer.
#[derive(Clone, Debug, PartialEq, Eq)]
pub enum Effect {
    /// Have the poll watch this source for readable readiness,
    /// level-triggered.
    Register { id: usize, role: EndpointRole, handle: i32 },
    /// Have the poll stop watching the source under `id`, and let go of it.
    Deregister { id: usize },
    /// Take one pending connection off the listener.
    Accept,
    /// Read once from the terminal, at most `limit` bytes.
    ReadTerminal { limit: usize },
    /// Read once from the connection, without blocking.
    ReadConnection,
    /// Write all of `bytes` to the connection.
    SendToPeer { bytes: Vec<u8> },
    /// Write all of `bytes` to the standard output and flush it.
    Print { bytes: Vec<u8> },
    /// Show a notice to the person at the terminal.
    Notify { notice: Notice },
}

/// An effect as a mathematical value.
pub enum EffectView {
    Register { id: usize, role: EndpointRole, handle: i32 },
    Deregister { id: usize },
    Accept,
    ReadTerminal { limit: usize },
    ReadConnection,
    SendToPeer { bytes: Seq<u8> },
    Print { bytes: Seq<u8> },
    Notify { notice: NoticeView },
}

impl View for Effect {
    type V = EffectView;

    open spec fn view(&self) -> EffectView {
        match self {
            Effect::Register { id, role, handle } => EffectView::Register {
                id: *id,
                role: *role,
                handle: *handle,
            },
            Effect::Deregister { id } => EffectView::Deregister { id: *id },
            Effect::Accept => EffectView::Accept,
            Effect::ReadTerminal { limit } => EffectView::ReadTerminal { limit: *limit },
            Effect::ReadConnection => EffectView::ReadConnection,
            Effect::SendToPeer { bytes } => EffectView::SendToPeer { bytes: bytes@ },
            Effect::Print { bytes } => EffectView::Print { bytes: bytes@ },
            Effect::Notify { notice } => EffectView::Notify { notice: notice@ },
        }
    }
}

/// The effects of a list, each as a mathematical value.
pub open spec fn effect_views(effects: Seq<Effect>) -> Seq<EffectView> {
    Seq::new(effects.len(), |i: int| effects[i]@)
}

/// A condition that ends the chat. None of them is retried.
#[derive(Clone, Copy, Debug, PartialEq, Eq, Structural)]
pub enum LoopError {
    /// The poll reported an identifier that stands for no role.
    UnknownSource,
    /// Something concerned the listener, and no listener is registered.
    NoListener,
    /// Something concerned the connection, and no peer is connected.
    NotConnected,
    /// The listener failed to hand out a connection.
    AcceptFailed,
    /// A read from the terminal failed.
    TerminalReadFailed,
    /// A read from the connection failed, and not because it would block.
    ConnectionReadFailed,
}

/// What one step of the loop gives back, as a mathematical value.
pub type Outcome = Result<Seq<EffectView>, LoopError>;

/// An executable result says what `expected` says.
pub open spec fn outcome_is(res: Result<Vec<Effect>, LoopError>, expected: Outcome) -> bool {
    match expected {
        Ok(effects) => res matches Ok(list) && effect_views(list@) =~= effects,
        Err(error) => res matches Err(e) && e == error,
    }
}

} // verus!
