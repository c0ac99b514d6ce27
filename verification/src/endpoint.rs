//! Event sources: their roles, their identifiers and the events they raise.

use vstd::prelude::*;

verus! {

/// What a watched source is to the chat loop. A source keeps its role for as
/// long as it is registered.
#[derive(Clone, Copy, Debug, PartialEq, Eq, Structural)]
pub enum EndpointRole {
    /// The local terminal's input.
    Terminal,
    /// The socket that waits for a peer to dial in.
    Listener,
    /// The established connection to the peer.
    Connection,
}

/// Identifier under which the terminal is watched.
pub const TERMINAL_ID: usize = 0;

/// Identifier under which the listening socket is watched.
pub const LISTENER_ID: usize = 1;

/// Identifier under which the peer connection is watched.
pub const CONNECTION_ID: usize = 2;

/// Largest number of bytes taken from the terminal in one read.
pub const TERMINAL_CHUNK: usize = 512;

/// One report of the readiness poll: the source it concerns and whether that
/// source can be read without blocking.
#[derive(Clone, Copy, Debug, PartialEq, Eq, Structural)]
pub struct ReadinessEvent {
    pub source: usize,
    pub readable: bool,
}

/// The identifier that belongs to a role.
pub open spec fn spec_identifier(role: EndpointRole) -> usize {
    match role {
        EndpointRole::Terminal => TERMINAL_ID,
        EndpointRole::Listener => LISTENER_ID,
        EndpointRole::Connection => CONNECTION_ID,
    }
}

/// The role that an identifier stands for, if it stands for any.
pub open spec fn spec_role_of(source: usize) -> Option<EndpointRole> {
    if source == TERMINAL_ID {
        Some(EndpointRole::Terminal)
    } else if source == LISTENER_ID {
        Some(EndpointRole::Listener)
    } else if source == CONNECTION_ID {
        Some(EndpointRole::Connection)
    } else {
        None
    }
}

impl EndpointRole {
    /// The identifier under which a source of this role is watched.
    pub fn identifier(self) -> (id: usize)
        ensures
            id == spec_identifier(self),
    {
        match self {
            EndpointRole::Terminal => TERMINAL_ID,
            EndpointRole::Listener => LISTENER_ID,
            EndpointRole::Connection => CONNECTION_ID,
        }
    }

    /// Reads an identifier back into the role it stands for. Identifiers that
    /// no role owns give `None`.
    pub fn of_identifier(source: usize) -> (role: Option<EndpointRole>)
        ensures
            role == spec_role_of(source),
    {
        if source == TERMINAL_ID {
            Some(EndpointRole::Terminal)
        } else if source == LISTENER_ID {
            Some(EndpointRole::Listener)
        } else if source == CONNECTION_ID {
            Some(EndpointRole::Connection)
        } else {
            None
        }
    }
}

/// Every role is found again from its identifier, and no two roles share one.
pub proof fn law_identifiers_are_unique_per_role(a: EndpointRole, b: EndpointRole)
    ensures
        spec_role_of(spec_identifier(a)) == Some(a),
        spec_identifier(a) == spec_identifier(b) <==> a == b,
{
}

/// An identifier that names a role is that role's own identifier.
pub proof fn law_identifier_names_its_role(source: usize, role: EndpointRole)
    requires
        spec_role_of(source) == Some(role),
    ensures
        spec_identifier(role) == source,
{
}

} // verus!
