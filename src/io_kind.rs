//! The kinds of socket failure that the protocols tell apart.

use vstd::prelude::*;

verus! {

/// What a failed socket call reported.
#[derive(Debug, PartialEq, Eq, Clone, Copy, Structural)]
pub enum IoKind {
    WouldBlock,
    TimedOut,
    PermissionDenied,
    BrokenPipe,
    ConnectionReset,
    Other,
}

impl IoKind {
    /// Nothing arrived in time: a timed receive or a poll is idle.
    pub fn is_idle(self) -> (r: bool)
        ensures
            r == (self == IoKind::WouldBlock || self == IoKind::TimedOut),
    {
        match self {
            IoKind::WouldBlock | IoKind::TimedOut => true,
            _ => false,
        }
    }

    /// A non-blocking stream has nothing more to read for now.
    pub fn ends_drain(self) -> (r: bool)
        ensures
            r == (self == IoKind::WouldBlock),
    {
        match self {
            IoKind::WouldBlock => true,
            _ => false,
        }
    }

    /// The peer has gone away; a writer drops its connection.
    pub fn is_peer_gone(self) -> (r: bool)
        ensures
            r == (self == IoKind::BrokenPipe || self == IoKind::ConnectionReset),
    {
        match self {
            IoKind::BrokenPipe | IoKind::ConnectionReset => true,
            _ => false,
        }
    }
}

} // verus!
