//! The lifecycle of one accepted connection, as a state machine: the
//! caller that owns the socket tracks where the connection stands and
//! asks which moves are legal.
use vstd::prelude::*;

verus! {

/// Where a connection stands between being accepted and being closed.
#[derive(Debug, Clone, Copy, PartialEq, Eq, Structural)]
pub enum ConnState {
    /// The socket was accepted; nothing was read yet.
    Accepted,
    /// The request head was read off the socket.
    HeadersRead,
    /// A handler or the static-file fallback was chosen.
    Routed,
    /// An ordinary response went out.
    Responded,
    /// The connection was promoted and now belongs to the registry.
    Promoted,
    /// The socket is shut down in both directions, or was dropped by the
    /// registry after a write failure.
    Closed,
}

/// What happens to a connection.
#[derive(Debug, Clone, Copy, PartialEq, Eq, Structural)]
pub enum ConnEvent {
    ReadHeaders,
    Route,
    Respond,
    Promote,
    Close,
    WriteFailed,
}

/// The legal moves: read, route, then either respond and close, or
/// promote and stay open until a write fails.
pub open spec fn next_state(s: ConnState, e: ConnEvent) -> Option<ConnState> {
    match (s, e) {
        (ConnState::Accepted, ConnEvent::ReadHeaders) => Some(ConnState::HeadersRead),
        (ConnState::HeadersRead, ConnEvent::Route) => Some(ConnState::Routed),
        (ConnState::Routed, ConnEvent::Respond) => Some(ConnState::Responded),
        (ConnState::Responded, ConnEvent::Close) => Some(ConnState::Closed),
        (ConnState::Routed, ConnEvent::Promote) => Some(ConnState::Promoted),
        (ConnState::Promoted, ConnEvent::WriteFailed) => Some(ConnState::Closed),
        _ => None,
    }
}

/// Takes one step of the connection lifecycle; an event that is not legal
/// in the current state yields nothing.
pub fn conn_step(s: ConnState, e: ConnEvent) -> (r: Option<ConnState>)
    ensures
        r == next_state(s, e),
{
    match (s, e) {
        (ConnState::Accepted, ConnEvent::ReadHeaders) => Some(ConnState::HeadersRead),
        (ConnState::HeadersRead, ConnEvent::Route) => Some(ConnState::Routed),
        (ConnState::Routed, ConnEvent::Respond) => Some(ConnState::Responded),
        (ConnState::Responded, ConnEvent::Close) => Some(ConnState::Closed),
        (ConnState::Routed, ConnEvent::Promote) => Some(ConnState::Promoted),
        (ConnState::Promoted, ConnEvent::WriteFailed) => Some(ConnState::Closed),
        _ => None,
    }
}

/// A closed connection is terminal: no event moves it anywhere.
pub proof fn lemma_closed_is_terminal(e: ConnEvent)
    ensures
        next_state(ConnState::Closed, e) is None,
{
}

} // verus!
