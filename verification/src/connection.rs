//! The decisions of the handler of one accepted connection.
//!
//! A TLS connection starts with the handshake; then, as on a plain
//! connection, the response is written and the connection is shut down. The
//! first step that fails ends the handler: nothing is tried again, and
//! nothing after it is attempted.

use crate::listener::Transport;
use vstd::prelude::*;

verus! {

/// Where the handler of a connection stands.
#[derive(Debug, Clone, Copy, PartialEq, Eq, Structural)]
pub enum ConnectionState {
    /// The TLS handshake is under way.
    Handshaking,
    /// The response is being written.
    Writing,
    /// The connection is being shut down.
    Closing,
    /// The response was delivered and the connection shut down.
    Closed,
    /// A step failed; the connection is given up.
    Failed,
}

/// What the handler of a connection asks for next.
#[derive(Debug, Clone, Copy, PartialEq, Eq, Structural)]
pub enum ConnectionAction {
    /// Perform the TLS server handshake.
    Handshake,
    /// Write the whole response.
    Write,
    /// Flush and shut down the write side.
    Shutdown,
    /// Nothing more: let go of the connection.
    Finish,
}

impl ConnectionState {
    /// Whether the handler has ended.
    pub open spec fn is_final(self) -> bool {
        self == ConnectionState::Closed || self == ConnectionState::Failed
    }
}

/// The state in which the handler of a connection of `transport` starts.
/// Datagrams have no connection and no handler.
pub open spec fn opening(transport: Transport) -> Option<ConnectionState> {
    match transport {
        Transport::Tcp => Some(ConnectionState::Writing),
        Transport::Tls => Some(ConnectionState::Handshaking),
        Transport::Udp => None,
    }
}

/// The state of a handler after the step it asked for in `state` has
/// succeeded or failed.
pub open spec fn advanced(state: ConnectionState, succeeded: bool) -> ConnectionState {
    match state {
        ConnectionState::Closed => ConnectionState::Closed,
        ConnectionState::Failed => ConnectionState::Failed,
        ConnectionState::Handshaking => if succeeded {
            ConnectionState::Writing
        } else {
            ConnectionState::Failed
        },
        ConnectionState::Writing => if succeeded {
            ConnectionState::Closing
        } else {
            ConnectionState::Failed
        },
        ConnectionState::Closing => if succeeded {
            ConnectionState::Closed
        } else {
            ConnectionState::Failed
        },
    }
}

/// What a handler asks for in `state`.
pub open spec fn asked_in(state: ConnectionState) -> ConnectionAction {
    match state {
        ConnectionState::Handshaking => ConnectionAction::Handshake,
        ConnectionState::Writing => ConnectionAction::Write,
        ConnectionState::Closing => ConnectionAction::Shutdown,
        ConnectionState::Closed => ConnectionAction::Finish,
        ConnectionState::Failed => ConnectionAction::Finish,
    }
}

/// The state of a handler after the steps whose outcomes are `outcomes`, in
/// order.
pub open spec fn handled(state: ConnectionState, outcomes: Seq<bool>) -> ConnectionState
    decreases outcomes.len(),
{
    if outcomes.len() == 0 {
        state
    } else {
        handled(advanced(state, outcomes[0]), outcomes.drop_first())
    }
}

/// The steps that a handler starting in `state` has before it: none once it
/// has ended.
pub open spec fn steps_left(state: ConnectionState) -> nat {
    match state {
        ConnectionState::Handshaking => 3,
        ConnectionState::Writing => 2,
        ConnectionState::Closing => 1,
        ConnectionState::Closed => 0,
        ConnectionState::Failed => 0,
    }
}

/// What a handler asks for in `state`.
pub fn asked(state: ConnectionState) -> (action: ConnectionAction)
    ensures
        action == asked_in(state),
{
    match state {
        ConnectionState::Handshaking => ConnectionAction::Handshake,
        ConnectionState::Writing => ConnectionAction::Write,
        ConnectionState::Closing => ConnectionAction::Shutdown,
        ConnectionState::Closed => ConnectionAction::Finish,
        ConnectionState::Failed => ConnectionAction::Finish,
    }
}

/// Starts the handler of a connection accepted on `transport`: its first
/// state and action, or `None` for the datagram transport.
pub fn start(transport: Transport) -> (first: Option<
    (ConnectionState, ConnectionAction),
>)
    ensures
        match opening(transport) {
            Some(state) => first == Some((state, asked_in(state))),
            None => first is None,
        },
{
    match transport {
        Transport::Tcp => Some((ConnectionState::Writing, ConnectionAction::Write)),
        Transport::Tls => Some((ConnectionState::Handshaking, ConnectionAction::Handshake)),
        Transport::Udp => None,
    }
}

/// Takes a handler from `state` over the outcome of the step it asked for:
/// the state it is in afterwards, and what it asks for there.
pub fn advance(state: ConnectionState, succeeded: bool) -> (next: (
    ConnectionState,
    ConnectionAction,
))
    ensures
        next.0 == advanced(state, succeeded),
        next.1 == asked_in(next.0),
{
    let after = match state {
        ConnectionState::Closed => ConnectionState::Closed,
        ConnectionState::Failed => ConnectionState::Failed,
        ConnectionState::Handshaking => if succeeded {
            ConnectionState::Writing
        } else {
            ConnectionState::Failed
        },
        ConnectionState::Writing => if succeeded {
            ConnectionState::Closing
        } else {
            ConnectionState::Failed
        },
        ConnectionState::Closing => if succeeded {
            ConnectionState::Closed
        } else {
            ConnectionState::Failed
        },
    };
    (after, asked(after))
}

/// Every step brings a handler nearer to its end: a handler that has not
/// ended has one step less before it afterwards.
pub proof fn lemma_every_step_counts(state: ConnectionState, succeeded: bool)
    ensures
        steps_left(advanced(state, succeeded)) <= steps_left(state),
        !state.is_final() ==> steps_left(advanced(state, succeeded)) < steps_left(state),
        state.is_final() <==> steps_left(state) == 0,
{
}

/// A handler ends after as many steps as it has before it, three at most,
/// whatever their outcomes.
pub proof fn lemma_handler_ends(state: ConnectionState, outcomes: Seq<bool>)
    requires
        outcomes.len() >= steps_left(state),
    ensures
        handled(state, outcomes).is_final(),
    decreases outcomes.len(),
{
    if outcomes.len() > 0 {
        lemma_every_step_counts(state, outcomes[0]);
        lemma_handler_ends(advanced(state, outcomes[0]), outcomes.drop_first());
    }
}

/// A connection is closed in good order exactly where every step that the
/// handler had before it was taken and succeeded, and given up exactly where
/// one of them failed. What is reported after its end changes nothing.
pub proof fn lemma_closed_when_all_succeed(state: ConnectionState, outcomes: Seq<bool>)
    requires
        !state.is_final(),
    ensures
        handled(state, outcomes) == ConnectionState::Closed <==> outcomes.len() >= steps_left(
            state,
        ) && forall|i: int| 0 <= i < steps_left(state) ==> outcomes[i],
        handled(state, outcomes) == ConnectionState::Failed <==> exists|i: int|
            0 <= i < steps_left(state) && i < outcomes.len() && !outcomes[i],
    decreases outcomes.len(),
{
    if outcomes.len() > 0 {
        let next = advanced(state, outcomes[0]);
        let rest = outcomes.drop_first();
        assert forall|i: int| 0 <= i < rest.len() implies rest[i] == outcomes[i + 1] by {}
        if next.is_final() {
            lemma_ended_for_good(next, rest);
        } else {
            lemma_closed_when_all_succeed(next, rest);
            if handled(next, rest) == ConnectionState::Closed {
                assert forall|i: int| 0 <= i < steps_left(state) implies outcomes[i] by {
                    if i > 0 {
                        assert(rest[i - 1]);
                    }
                }
            }
            if handled(next, rest) == ConnectionState::Failed {
                let i = choose|i: int| 0 <= i < steps_left(next) && i < rest.len() && !rest[i];
                assert(!outcomes[i + 1]);
            }
            if exists|i: int| 0 <= i < steps_left(state) && i < outcomes.len() && !outcomes[i] {
                let i = choose|i: int|
                    0 <= i < steps_left(state) && i < outcomes.len() && !outcomes[i];
                assert(!rest[i - 1]);
            }
        }
    }
}

/// A handler that has ended stays as it is, whatever is reported to it.
pub proof fn lemma_ended_for_good(state: ConnectionState, outcomes: Seq<bool>)
    requires
        state.is_final(),
    ensures
        handled(state, outcomes) == state,
    decreases outcomes.len(),
{
    if outcomes.len() > 0 {
        lemma_ended_for_good(state, outcomes.drop_first());
    }
}

} // verus!
