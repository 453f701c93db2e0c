//! The session's life cycle: which operations the state allows, and the
//! state that each event leads to. The stream itself is owned elsewhere.
use crate::error::{OpenRGBError, OpenRGBResult};
use vstd::prelude::*;

verus! {

/// Where a session stands between requests.
#[derive(Debug, Clone, Copy, PartialEq, Eq, Structural)]
pub enum SessionState {
    /// No request is outstanding.
    Idle,
    /// A request was sent and its response is still to be read.
    AwaitingResponse,
    /// A failure or an out-of-step use left the stream unusable.
    Closed,
}

/// What happened on the stream.
#[derive(Debug, Clone, Copy, PartialEq, Eq, Structural)]
pub enum SessionEvent {
    /// A frame was written and flushed; `awaits` when a response follows.
    Sent { awaits: bool },
    /// A whole response frame was read and decoded.
    Received,
    /// A read, a write or a decode failed.
    Failed,
}

/// One request at a time: a send while a response is outstanding, or a
/// read with none outstanding, leaves the frames out of step for good.
pub open spec fn next_state(s: SessionState, e: SessionEvent) -> SessionState {
    match (s, e) {
        (SessionState::Idle, SessionEvent::Sent { awaits }) => if awaits {
            SessionState::AwaitingResponse
        } else {
            SessionState::Idle
        },
        (SessionState::AwaitingResponse, SessionEvent::Received) => SessionState::Idle,
        _ => SessionState::Closed,
    }
}

/// A closed session stays closed, and a failure closes any session.
pub proof fn lemma_closed_is_final(s: SessionState, e: SessionEvent)
    ensures
        s == SessionState::Closed ==> next_state(s, e) == SessionState::Closed,
        e == SessionEvent::Failed ==> next_state(s, e) == SessionState::Closed,
{
}

impl SessionState {
    /// The state after `event`.
    pub fn step(self, event: SessionEvent) -> (r: SessionState)
        ensures
            r == next_state(self, event),
    {
        match (self, event) {
            (SessionState::Idle, SessionEvent::Sent { awaits }) => if awaits {
                SessionState::AwaitingResponse
            } else {
                SessionState::Idle
            },
            (SessionState::AwaitingResponse, SessionEvent::Received) => SessionState::Idle,
            _ => SessionState::Closed,
        }
    }

    /// A request may be sent only when none is outstanding.
    pub fn check_send(self) -> (r: OpenRGBResult<()>)
        ensures
            self == SessionState::Idle ==> r is Ok,
            self != SessionState::Idle ==> r == Err::<(), OpenRGBError>(OpenRGBError::Transport),
    {
        match self {
            SessionState::Idle => Ok(()),
            _ => Err(OpenRGBError::Transport),
        }
    }

    /// A response may be read only when one is outstanding.
    pub fn check_read(self) -> (r: OpenRGBResult<()>)
        ensures
            self == SessionState::AwaitingResponse ==> r is Ok,
            self != SessionState::AwaitingResponse ==> r == Err::<(), OpenRGBError>(
                OpenRGBError::Transport,
            ),
    {
        match self {
            SessionState::AwaitingResponse => Ok(()),
            _ => Err(OpenRGBError::Transport),
        }
    }
}

} // verus!
