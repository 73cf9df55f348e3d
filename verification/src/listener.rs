//! The decisions of a listener loop.
//!
//! A listener binds its socket, then waits for a peer and serves it, again
//! and again. Whoever runs the loop performs each action on the socket and
//! reports what happened as an event; the functions here say which state the
//! listener is in after the event and what it does next.
//!
//! A stream listener serves a peer by handing the accepted connection to a
//! handler that runs on its own; a datagram listener answers the peer itself,
//! before it waits for the next one. Failing to bind ends the process, failing
//! to receive a peer ends the listener, and failing to serve a peer ends
//! nothing but that peer's service.

use vstd::prelude::*;

verus! {

/// The transports over which quotes are served.
#[derive(Debug, Clone, Copy, PartialEq, Eq, Structural)]
pub enum Transport {
    /// Plain TCP.
    Tcp,
    /// TLS over TCP.
    Tls,
    /// UDP.
    Udp,
}

/// Where a listener stands.
#[derive(Debug, Clone, Copy, PartialEq, Eq, Structural)]
pub enum ListenerState {
    /// The socket is being bound.
    Binding,
    /// The listener waits for the next peer.
    Listening,
    /// A peer has arrived and is being served.
    Serving,
    /// The listener has ended; the other listeners go on.
    Stopped,
    /// The listener has ended and takes the process with it.
    Aborted,
}

/// What happened to the action that a listener asked for.
#[derive(Debug, Clone, Copy, PartialEq, Eq, Structural)]
pub enum ListenerEvent {
    /// The socket was bound.
    Bound,
    /// The socket could not be bound.
    BindFailed,
    /// A connection was accepted, or a datagram received.
    PeerArrived,
    /// Accepting or receiving failed.
    ReceiveFailed,
    /// The handler was started, or the reply sent.
    Served,
    /// The peer could not be served.
    ServeFailed,
}

/// What a listener asks for next.
#[derive(Debug, Clone, Copy, PartialEq, Eq, Structural)]
pub enum ListenerAction {
    /// Bind the socket.
    Bind,
    /// Wait for a connection or a datagram.
    Receive,
    /// Start a handler of its own for the accepted connection.
    Dispatch,
    /// Send the reply to the datagram's sender.
    Reply,
    /// End this listener.
    Stop,
    /// End the process with an error.
    Abort,
}

impl Transport {
    /// The name of the transport in the log of served peers.
    pub open spec fn label_of(self) -> Seq<char> {
        match self {
            Transport::Tcp => "TCP"@,
            Transport::Tls => "SSL"@,
            Transport::Udp => "UDP"@,
        }
    }

    /// The URL scheme under which the transport announces its address.
    pub open spec fn scheme_of(self) -> Seq<char> {
        match self {
            Transport::Tcp => "tcp"@,
            Transport::Tls => "tls"@,
            Transport::Udp => "udp"@,
        }
    }

    /// The name of the transport in the log of served peers.
    pub fn label(self) -> (name: &'static str)
        ensures
            name@ == self.label_of(),
    {
        match self {
            Transport::Tcp => "TCP",
            Transport::Tls => "SSL",
            Transport::Udp => "UDP",
        }
    }

    /// The URL scheme under which the transport announces its address.
    pub fn scheme(self) -> (name: &'static str)
        ensures
            name@ == self.scheme_of(),
    {
        match self {
            Transport::Tcp => "tcp",
            Transport::Tls => "tls",
            Transport::Udp => "udp",
        }
    }

    /// Whether the transport carries connections rather than datagrams.
    pub open spec fn is_stream(self) -> bool {
        self != Transport::Udp
    }

    /// Whether a connection of this transport starts with a handshake.
    pub open spec fn is_secure(self) -> bool {
        self == Transport::Tls
    }
}

impl ListenerState {
    /// Whether the listener has ended.
    pub open spec fn is_final(self) -> bool {
        self == ListenerState::Stopped || self == ListenerState::Aborted
    }
}

impl ListenerEvent {
    /// Whether the event can end a listener.
    pub open spec fn is_fatal(self) -> bool {
        self == ListenerEvent::BindFailed || self == ListenerEvent::ReceiveFailed
    }
}

/// The state of a listener after `event` in `state`. An event that the state
/// does not wait for changes nothing.
pub open spec fn next_state(state: ListenerState, event: ListenerEvent) -> ListenerState {
    match (state, event) {
        (ListenerState::Binding, ListenerEvent::Bound) => ListenerState::Listening,
        (ListenerState::Binding, ListenerEvent::BindFailed) => ListenerState::Aborted,
        (ListenerState::Listening, ListenerEvent::PeerArrived) => ListenerState::Serving,
        (ListenerState::Listening, ListenerEvent::ReceiveFailed) => ListenerState::Stopped,
        (ListenerState::Serving, ListenerEvent::Served) => ListenerState::Listening,
        (ListenerState::Serving, ListenerEvent::ServeFailed) => ListenerState::Listening,
        _ => state,
    }
}

/// What a listener of `transport` asks for in `state`.
pub open spec fn action_in(transport: Transport, state: ListenerState) -> ListenerAction {
    match state {
        ListenerState::Binding => ListenerAction::Bind,
        ListenerState::Listening => ListenerAction::Receive,
        ListenerState::Serving => if transport.is_stream() {
            ListenerAction::Dispatch
        } else {
            ListenerAction::Reply
        },
        ListenerState::Stopped => ListenerAction::Stop,
        ListenerState::Aborted => ListenerAction::Abort,
    }
}

/// The state of a listener after all of `events`, in order.
pub open spec fn state_after(state: ListenerState, events: Seq<ListenerEvent>) -> ListenerState
    decreases events.len(),
{
    if events.len() == 0 {
        state
    } else {
        next_state(state_after(state, events.drop_last()), events.last())
    }
}

/// The state in which every listener starts, and its first action.
pub fn start(transport: Transport) -> (first: (ListenerState, ListenerAction))
    ensures
        first.0 == ListenerState::Binding,
        first.1 == action_in(transport, first.0),
{
    (ListenerState::Binding, ListenerAction::Bind)
}

/// What a listener of `transport` asks for in `state`.
pub fn action(transport: Transport, state: ListenerState) -> (asked: ListenerAction)
    ensures
        asked == action_in(transport, state),
{
    match state {
        ListenerState::Binding => ListenerAction::Bind,
        ListenerState::Listening => ListenerAction::Receive,
        ListenerState::Serving => match transport {
            Transport::Udp => ListenerAction::Reply,
            _ => ListenerAction::Dispatch,
        },
        ListenerState::Stopped => ListenerAction::Stop,
        ListenerState::Aborted => ListenerAction::Abort,
    }
}

/// Takes a listener of `transport` from `state` over `event`: the state it
/// is in afterwards, and what it asks for there.
pub fn step(transport: Transport, state: ListenerState, event: ListenerEvent) -> (next: (
    ListenerState,
    ListenerAction,
))
    ensures
        next.0 == next_state(state, event),
        next.1 == action_in(transport, next.0),
{
    let after = match state {
        ListenerState::Binding => match event {
            ListenerEvent::Bound => ListenerState::Listening,
            ListenerEvent::BindFailed => ListenerState::Aborted,
            _ => state,
        },
        ListenerState::Listening => match event {
            ListenerEvent::PeerArrived => ListenerState::Serving,
            ListenerEvent::ReceiveFailed => ListenerState::Stopped,
            _ => state,
        },
        ListenerState::Serving => match event {
            ListenerEvent::Served => ListenerState::Listening,
            ListenerEvent::ServeFailed => ListenerState::Listening,
            _ => state,
        },
        _ => state,
    };
    (after, action(transport, after))
}

/// A listener that has ended stays as it is, whatever is reported to it.
pub proof fn lemma_ended_for_good(state: ListenerState, events: Seq<ListenerEvent>)
    requires
        state.is_final(),
    ensures
        state_after(state, events) == state,
    decreases events.len(),
{
    if events.len() > 0 {
        lemma_ended_for_good(state, events.drop_last());
    }
}

/// Only a failure to bind or to receive ends a listener: as long as neither
/// is reported, the listener goes on, however many peers it failed to serve.
pub proof fn lemma_peer_failures_end_nothing(state: ListenerState, events: Seq<ListenerEvent>)
    requires
        !state.is_final(),
        forall|i: int| 0 <= i < events.len() ==> !(#[trigger] events[i]).is_fatal(),
    ensures
        !state_after(state, events).is_final(),
    decreases events.len(),
{
    if events.len() > 0 {
        let earlier = events.drop_last();
        assert forall|i: int| 0 <= i < earlier.len() implies !(#[trigger] earlier[i]).is_fatal() by {
            assert(earlier[i] == events[i]);
        }
        lemma_peer_failures_end_nothing(state, earlier);
        assert(!events.last().is_fatal());
    }
}

/// A listener aborts the process only from binding, and stops only from
/// listening: it never ends while a peer is being served.
pub proof fn lemma_how_a_listener_ends(state: ListenerState, event: ListenerEvent)
    requires
        !state.is_final(),
    ensures
        next_state(state, event) == ListenerState::Aborted <==> state == ListenerState::Binding
            && event == ListenerEvent::BindFailed,
        next_state(state, event) == ListenerState::Stopped <==> state == ListenerState::Listening
            && event == ListenerEvent::ReceiveFailed,
{
}

} // verus!
