//! The life of a connection, from handshake to close.

use vstd::prelude::*;

verus! {

/// Where a connection stands in its life.
#[derive(Clone, Copy, Debug, PartialEq, Eq, Structural)]
pub enum ReadyState {
    Connecting,
    Open,
    Closing,
    Closed,
}

/// What goes over a connection.
#[derive(Clone, Debug, PartialEq, Eq)]
pub enum Message {
    Binary(Vec<u8>),
    Text(String),
}

/// Why an operation on a connection failed.
#[derive(Clone, Copy, Debug, PartialEq, Eq, Structural)]
pub enum WSError {
    /// The connection is not open.
    NotConnected,
    /// Something other than what was waited for happened.
    UnexpectedEvent,
    Unknown,
}

/// What a socket reports while it is waited on.
#[derive(Clone, Copy, Debug, PartialEq, Eq, Structural)]
pub enum SocketEvent {
    Close,
    Error,
    Message,
    Open,
}

/// What can happen to a connection.
#[derive(Clone, Copy, Debug, PartialEq, Eq, Structural)]
pub enum ConnectionEvent {
    /// The handshake was approved and the socket upgraded.
    Accepted,
    /// The handshake was rejected; no upgrade took place.
    Rejected,
    /// This side asked for the connection to be closed.
    CloseRequested,
    /// The peer acknowledged the close, the wait for it ran out, or the
    /// stream ended.
    CloseConfirmed,
}

/// How far a connection has come: a state never gives way to an earlier one.
pub open spec fn progress(state: ReadyState) -> nat {
    match state {
        ReadyState::Connecting => 0,
        ReadyState::Open => 1,
        ReadyState::Closing => 2,
        ReadyState::Closed => 3,
    }
}

/// The state that follows `state` when `event` happens.
pub open spec fn next_state(state: ReadyState, event: ConnectionEvent) -> ReadyState {
    match (state, event) {
        (ReadyState::Connecting, ConnectionEvent::Accepted) => ReadyState::Open,
        (ReadyState::Connecting, _) => ReadyState::Closed,
        (ReadyState::Open, ConnectionEvent::CloseRequested) => ReadyState::Closing,
        (ReadyState::Open, ConnectionEvent::CloseConfirmed) => ReadyState::Closed,
        (ReadyState::Closing, ConnectionEvent::CloseConfirmed) => ReadyState::Closed,
        (state, _) => state,
    }
}

/// Whether this side owes the peer a close frame when `event` happens in `state`.
pub open spec fn owes_close_frame(state: ReadyState, event: ConnectionEvent) -> bool {
    state == ReadyState::Open && event == ConnectionEvent::CloseRequested
}

impl ReadyState {
    /// The state that a socket reports by number, zero to three.
    pub fn from_code(code: u16) -> (state: Option<ReadyState>)
        ensures
            state == match code {
                0 => Some(ReadyState::Connecting),
                1 => Some(ReadyState::Open),
                2 => Some(ReadyState::Closing),
                3 => Some(ReadyState::Closed),
                _ => None,
            },
    {
        match code {
            0 => Some(ReadyState::Connecting),
            1 => Some(ReadyState::Open),
            2 => Some(ReadyState::Closing),
            3 => Some(ReadyState::Closed),
            _ => None,
        }
    }

    /// Sending and receiving are for open connections only.
    pub fn check_open(self) -> (checked: Result<(), WSError>)
        ensures
            checked == if self == ReadyState::Open {
                Ok::<(), WSError>(())
            } else {
                Err::<(), WSError>(WSError::NotConnected)
            },
    {
        match self {
            ReadyState::Open => Ok(()),
            _ => Err(WSError::NotConnected),
        }
    }

    /// Takes note of `event`: tells the state that follows, and whether a
    /// close frame is to be sent to the peer.
    pub fn on_event(self, event: ConnectionEvent) -> (next: (ReadyState, bool))
        ensures
            next.0 == next_state(self, event),
            next.1 == owes_close_frame(self, event),
    {
        match self {
            ReadyState::Connecting => match event {
                ConnectionEvent::Accepted => (ReadyState::Open, false),
                _ => (ReadyState::Closed, false),
            },
            ReadyState::Open => match event {
                ConnectionEvent::CloseRequested => (ReadyState::Closing, true),
                ConnectionEvent::CloseConfirmed => (ReadyState::Closed, false),
                _ => (ReadyState::Open, false),
            },
            ReadyState::Closing => match event {
                ConnectionEvent::CloseConfirmed => (ReadyState::Closed, false),
                _ => (ReadyState::Closing, false),
            },
            ReadyState::Closed => (ReadyState::Closed, false),
        }
    }
}

/// Waiting for a socket to open ends well with the report that it is open.
/// Any other report is unexpected, and no report at all is an error of
/// unknown kind.
pub fn expect_open(event: Option<SocketEvent>) -> (waited: Result<(), WSError>)
    ensures
        waited == match event {
            Some(SocketEvent::Open) => Ok::<(), WSError>(()),
            Some(_) => Err::<(), WSError>(WSError::UnexpectedEvent),
            None => Err::<(), WSError>(WSError::Unknown),
        },
{
    match event {
        Some(SocketEvent::Open) => Ok(()),
        Some(_) => Err(WSError::UnexpectedEvent),
        None => Err(WSError::Unknown),
    }
}

/// Waiting for a socket to close ends well with the report that it is
/// closed. Any other report is unexpected, and no report at all is an error
/// of unknown kind.
pub fn expect_close(event: Option<SocketEvent>) -> (waited: Result<(), WSError>)
    ensures
        waited == match event {
            Some(SocketEvent::Close) => Ok::<(), WSError>(()),
            Some(_) => Err::<(), WSError>(WSError::UnexpectedEvent),
            None => Err::<(), WSError>(WSError::Unknown),
        },
{
    match event {
        Some(SocketEvent::Close) => Ok(()),
        Some(_) => Err(WSError::UnexpectedEvent),
        None => Err(WSError::Unknown),
    }
}

/// A connection only ever moves on: from connecting to open to closing to
/// closed, possibly skipping states. Closed is final.
pub proof fn lemma_connection_moves_on(state: ReadyState, event: ConnectionEvent)
    ensures
        progress(next_state(state, event)) >= progress(state),
        state == ReadyState::Closed ==> next_state(state, event) == ReadyState::Closed,
        next_state(state, event) == ReadyState::Open ==> state == ReadyState::Open || (state
            == ReadyState::Connecting && event == ConnectionEvent::Accepted),
{
}

/// Asking twice for a close is as good as asking once, and only the first
/// request owes the peer a close frame.
pub proof fn lemma_close_is_idempotent(state: ReadyState)
    ensures
        next_state(
            next_state(state, ConnectionEvent::CloseRequested),
            ConnectionEvent::CloseRequested,
        ) == next_state(state, ConnectionEvent::CloseRequested),
        !owes_close_frame(
            next_state(state, ConnectionEvent::CloseRequested),
            ConnectionEvent::CloseRequested,
        ),
        next_state(state, ConnectionEvent::CloseRequested) != ReadyState::Open,
        next_state(state, ConnectionEvent::CloseRequested) != ReadyState::Connecting,
{
}

} // verus!
