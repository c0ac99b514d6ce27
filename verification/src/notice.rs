//! What the chat loop tells the person at the terminal.

use vstd::prelude::*;
use vstd::string::*;

verus! {

/// The byte that rings the terminal's bell.
pub const BELL: u8 = 7;

/// A line for the person at the terminal. None of them is a failure.
#[derive(Clone, Debug, PartialEq, Eq)]
pub enum Notice {
    /// A peer dialled in and was taken on; `peer` is its address as text.
    PeerAccepted { peer: String },
    /// The terminal's input has ended.
    TerminalEof,
    /// Terminal input arrived while no peer was connected and was discarded.
    InputDropped,
    /// The peer closed its side of the connection.
    PeerClosed,
}

/// A notice as a mathematical value.
pub enum NoticeView {
    PeerAccepted { peer: Seq<char> },
    TerminalEof,
    InputDropped,
    PeerClosed,
}

impl View for Notice {
    type V = NoticeView;

    open spec fn view(&self) -> NoticeView {
        match self {
            Notice::PeerAccepted { peer } => NoticeView::PeerAccepted { peer: peer@ },
            Notice::TerminalEof => NoticeView::TerminalEof,
            Notice::InputDropped => NoticeView::InputDropped,
            Notice::PeerClosed => NoticeView::PeerClosed,
        }
    }
}

impl NoticeView {
    /// The line that is shown for the notice, without its line end. The line
    /// for an accepted peer ends in the bell character.
    pub open spec fn text(self) -> Seq<char> {
        match self {
            NoticeView::PeerAccepted { peer } => "Accepting connection from "@ + peer + "\x07"@,
            NoticeView::TerminalEof => "eof on stdin"@,
            NoticeView::InputDropped => "no connection yet, input dropped"@,
            NoticeView::PeerClosed => "got eof"@,
        }
    }
}

impl Notice {
    /// The line that is shown for the notice, without its line end.
    pub fn text(&self) -> (line: String)
        ensures
            line@ == self@.text(),
    {
        match self {
            Notice::PeerAccepted { peer } => {
                let mut line = String::from_str("Accepting connection from ");
                line.append(peer.as_str());
                line.append("\x07");
                line
            },
            Notice::TerminalEof => String::from_str("eof on stdin"),
            Notice::InputDropped => String::from_str("no connection yet, input dropped"),
            Notice::PeerClosed => String::from_str("got eof"),
        }
    }
}

} // verus!
