//! The life of a relay session: open, closing, closed.

use crate::frame::Channel;
use vstd::prelude::*;

verus! {

/// What made a session leave the open state.
#[derive(Clone, Copy, Debug, PartialEq, Eq, Structural)]
pub enum CloseCause {
    /// The peer sent a close frame.
    PeerClosed,
    /// The socket's inbound side reached its end.
    SocketEnded,
    /// Receiving from the socket failed.
    SocketFailed,
    /// An output stream of the process reached its end.
    OutputEnded(Channel),
    /// Reading an output stream of the process failed.
    OutputFailed(Channel),
    /// A frame could not be sent outward.
    SendFailed,
    /// Writing to the input of the process failed.
    InputFailed,
    /// The process was gone before any teardown was asked for.
    ProcessExited,
}

/// The state of a session. A session owns one process and one socket; it is
/// closed once the process has been reaped.
#[derive(Clone, Copy, Debug, PartialEq, Eq, Structural)]
pub enum Session {
    /// The process runs and data is relayed.
    Open,
    /// Teardown was triggered; the process is being terminated.
    Closing(CloseCause),
    /// The process is gone and nothing is relayed any more.
    Closed(CloseCause),
}

/// How a closed session ended.
#[derive(Clone, Copy, Debug, PartialEq, Eq, Structural)]
pub enum SessionEnd {
    /// Both sides closed in an orderly way.
    Clean,
    /// A read or a write failed while the session was open.
    Error,
}

/// Whether a cause is a failure of a read or a write.
pub open spec fn is_failure(cause: CloseCause) -> bool {
    match cause {
        CloseCause::SocketFailed => true,
        CloseCause::OutputFailed(_) => true,
        CloseCause::SendFailed => true,
        CloseCause::InputFailed => true,
        _ => false,
    }
}

/// How a session ended, once it is closed.
pub open spec fn end_of(session: Session) -> Option<SessionEnd> {
    match session {
        Session::Closed(cause) => Some(
            if is_failure(cause) {
                SessionEnd::Error
            } else {
                SessionEnd::Clean
            },
        ),
        _ => None,
    }
}

/// Teardown: an open session starts closing for `cause` and its process is to
/// be terminated; on any other session it changes nothing.
pub open spec fn torn_down(session: Session, cause: CloseCause) -> (Session, bool) {
    match session {
        Session::Open => (Session::Closing(cause), true),
        _ => (session, false),
    }
}

/// The process has been reaped: the session is closed, for the cause that
/// started the teardown if there was one.
pub open spec fn reaped(session: Session) -> Session {
    match session {
        Session::Open => Session::Closed(CloseCause::ProcessExited),
        Session::Closing(cause) => Session::Closed(cause),
        Session::Closed(cause) => Session::Closed(cause),
    }
}

impl Session {
    pub fn is_open(&self) -> (r: bool)
        ensures
            r == (*self == Session::Open),
    {
        match self {
            Session::Open => true,
            _ => false,
        }
    }

    pub fn is_closed(&self) -> (r: bool)
        ensures
            r == (*self is Closed),
    {
        match self {
            Session::Closed(_) => true,
            _ => false,
        }
    }

    /// How the session ended; `None` while it is not closed.
    pub fn end(&self) -> (r: Option<SessionEnd>)
        ensures
            r == end_of(*self),
    {
        match self {
            Session::Closed(cause) => {
                let failed = match cause {
                    CloseCause::SocketFailed => true,
                    CloseCause::OutputFailed(_) => true,
                    CloseCause::SendFailed => true,
                    CloseCause::InputFailed => true,
                    _ => false,
                };
                if failed {
                    Some(SessionEnd::Error)
                } else {
                    Some(SessionEnd::Clean)
                }
            },
            _ => None,
        }
    }

    /// Triggers teardown. Returns whether the process is to be terminated now,
    /// which is the case the first time only.
    pub fn teardown(&mut self, cause: CloseCause) -> (terminate: bool)
        ensures
            (*final(self), terminate) == torn_down(*old(self), cause),
    {
        match *self {
            Session::Open => {
                *self = Session::Closing(cause);
                true
            },
            _ => false,
        }
    }

    /// Records that the process has been reaped.
    pub fn reap(&mut self)
        ensures
            *final(self) == reaped(*old(self)),
    {
        let next = match *self {
            Session::Open => Session::Closed(CloseCause::ProcessExited),
            Session::Closing(cause) => Session::Closed(cause),
            Session::Closed(cause) => Session::Closed(cause),
        };
        *self = next;
    }
}

/// Teardown is idempotent: after a first teardown, a second one, for whatever
/// cause, leaves the session as it is and asks for no termination.
pub proof fn lemma_teardown_idempotent(session: Session, first: CloseCause, second: CloseCause)
    ensures
        torn_down(torn_down(session, first).0, second) == (torn_down(session, first).0, false),
{
}

/// Teardown never reopens a session, and reaping always closes it.
pub proof fn lemma_teardown_then_reap_closes(session: Session, cause: CloseCause)
    ensures
        torn_down(session, cause).0 != Session::Open,
        reaped(torn_down(session, cause).0) is Closed,
        reaped(reaped(session)) == reaped(session),
{
}

} // verus!
