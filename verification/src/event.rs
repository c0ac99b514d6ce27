//! What the caller reports to the chat loop.

use vstd::prelude::*;
use crate::endpoint::ReadinessEvent;

verus! {

/// The result of one non-blocking read.
#[derive(Clone, Debug, PartialEq, Eq)]
pub enum ReadOutcome {
    /// The read succeeded and gave these bytes. No bytes at all is how the
    /// end of the input shows.
    Bytes(Vec<u8>),
    /// Nothing more can be read for now. This is no error.
    WouldBlock,
    /// The read failed for any other reason.
    Failed,
}

/// A read's result as a mathematical value.
pub enum ReadOutcomeView {
    Bytes(Seq<u8>),
    WouldBlock,
    Failed,
}

impl View for ReadOutcome {
    type V = ReadOutcomeView;

    open spec fn view(&self) -> ReadOutcomeView {
        match self {
            ReadOutcome::Bytes(bytes) => ReadOutcomeView::Bytes(bytes@),
            ReadOutcome::WouldBlock => ReadOutcomeView::WouldBlock,
            ReadOutcome::Failed => ReadOutcomeView::Failed,
        }
    }
}

impl ReadOutcomeView {
    /// A read that succeeded with no bytes: the other side has finished.
    pub open spec fn is_end_of_input(self) -> bool {
        self matches ReadOutcomeView::Bytes(bytes) && bytes.len() == 0
    }

    /// A read that succeeded with at least one byte.
    pub open spec fn has_data(self) -> bool {
        self matches ReadOutcomeView::Bytes(bytes) && bytes.len() > 0
    }
}

/// One thing that happened outside and that the chat loop has to decide on.
#[derive(Clone, Debug, PartialEq, Eq)]
pub enum LoopEvent {
    /// The readiness poll reported a source.
    Ready(ReadinessEvent),
    /// The listener handed out a pending connection; `peer` is the address
    /// of the other side as text.
    Accepted { handle: i32, peer: String },
    /// The listener failed to hand out a connection.
    AcceptFailed,
    /// A read from the terminal ended this way.
    TerminalRead(ReadOutcome),
    /// A read from the connection ended this way.
    ConnectionRead(ReadOutcome),
}

/// An event as a mathematical value.
pub enum LoopEventView {
    Ready(ReadinessEvent),
    Accepted { handle: i32, peer: Seq<char> },
    AcceptFailed,
    TerminalRead(ReadOutcomeView),
    ConnectionRead(ReadOutcomeView),
}

impl View for LoopEvent {
    type V = LoopEventView;

    open spec fn view(&self) -> LoopEventView {
        match self {
            LoopEvent::Ready(report) => LoopEventView::Ready(*report),
            LoopEvent::Accepted { handle, peer } => LoopEventView::Accepted {
                handle: *handle,
                peer: peer@,
            },
            LoopEvent::AcceptFailed => LoopEventView::AcceptFailed,
            LoopEvent::TerminalRead(outcome) => LoopEventView::TerminalRead(outcome@),
            LoopEvent::ConnectionRead(outcome) => LoopEventView::ConnectionRead(outcome@),
        }
    }
}

} // verus!
