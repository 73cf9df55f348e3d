use rqotdd::connection::{self, advance, asked, ConnectionAction, ConnectionState};
use rqotdd::listener::{action, start, step, ListenerAction, ListenerEvent, ListenerState, Transport};

const TRANSPORTS: [Transport; 3] = [Transport::Tcp, Transport::Tls, Transport::Udp];

const EVENTS: [ListenerEvent; 6] = [
    ListenerEvent::Bound,
    ListenerEvent::BindFailed,
    ListenerEvent::PeerArrived,
    ListenerEvent::ReceiveFailed,
    ListenerEvent::Served,
    ListenerEvent::ServeFailed,
];

#[test]
fn a_listener_starts_by_binding() {
    for transport in TRANSPORTS {
        assert_eq!(start(transport), (ListenerState::Binding, ListenerAction::Bind));
    }
}

#[test]
fn a_bound_listener_waits_for_peers() {
    for transport in TRANSPORTS {
        assert_eq!(step(transport, ListenerState::Binding, ListenerEvent::Bound), (ListenerState::Listening, ListenerAction::Receive));
    }
}

#[test]
fn a_failed_bind_aborts_the_process() {
    for transport in TRANSPORTS {
        assert_eq!(step(transport, ListenerState::Binding, ListenerEvent::BindFailed), (ListenerState::Aborted, ListenerAction::Abort));
    }
}

#[test]
fn stream_listeners_dispatch_their_peers() {
    for transport in [Transport::Tcp, Transport::Tls] {
        assert_eq!(step(transport, ListenerState::Listening, ListenerEvent::PeerArrived), (ListenerState::Serving, ListenerAction::Dispatch));
    }
}

#[test]
fn the_datagram_listener_replies_itself() {
    assert_eq!(step(Transport::Udp, ListenerState::Listening, ListenerEvent::PeerArrived), (ListenerState::Serving, ListenerAction::Reply));
}

#[test]
fn a_failed_receive_stops_the_listener() {
    for transport in TRANSPORTS {
        assert_eq!(step(transport, ListenerState::Listening, ListenerEvent::ReceiveFailed), (ListenerState::Stopped, ListenerAction::Stop));
    }
}

#[test]
fn a_served_peer_is_followed_by_the_next() {
    for transport in TRANSPORTS {
        assert_eq!(step(transport, ListenerState::Serving, ListenerEvent::Served), (ListenerState::Listening, ListenerAction::Receive));
    }
}

#[test]
fn a_peer_that_could_not_be_served_ends_nothing() {
    for transport in TRANSPORTS {
        assert_eq!(step(transport, ListenerState::Serving, ListenerEvent::ServeFailed), (ListenerState::Listening, ListenerAction::Receive));
    }
}

#[test]
fn an_ended_listener_stays_ended() {
    for transport in TRANSPORTS {
        for event in EVENTS {
            assert_eq!(step(transport, ListenerState::Stopped, event), (ListenerState::Stopped, ListenerAction::Stop));
            assert_eq!(step(transport, ListenerState::Aborted, event), (ListenerState::Aborted, ListenerAction::Abort));
        }
    }
}

#[test]
fn an_event_that_is_not_awaited_changes_nothing() {
    for transport in TRANSPORTS {
        for event in [ListenerEvent::PeerArrived, ListenerEvent::ReceiveFailed, ListenerEvent::Served, ListenerEvent::ServeFailed] {
            assert_eq!(step(transport, ListenerState::Binding, event), (ListenerState::Binding, ListenerAction::Bind));
        }
        for event in [ListenerEvent::Bound, ListenerEvent::BindFailed, ListenerEvent::Served, ListenerEvent::ServeFailed] {
            assert_eq!(step(transport, ListenerState::Listening, event), (ListenerState::Listening, ListenerAction::Receive));
        }
        for event in [ListenerEvent::Bound, ListenerEvent::BindFailed, ListenerEvent::PeerArrived, ListenerEvent::ReceiveFailed] {
            assert_eq!(step(transport, ListenerState::Serving, event).0, ListenerState::Serving);
        }
    }
}

#[test]
fn the_action_goes_with_the_state() {
    assert_eq!(action(Transport::Tcp, ListenerState::Binding), ListenerAction::Bind);
    assert_eq!(action(Transport::Tls, ListenerState::Listening), ListenerAction::Receive);
    assert_eq!(action(Transport::Tcp, ListenerState::Serving), ListenerAction::Dispatch);
    assert_eq!(action(Transport::Tls, ListenerState::Serving), ListenerAction::Dispatch);
    assert_eq!(action(Transport::Udp, ListenerState::Serving), ListenerAction::Reply);
    assert_eq!(action(Transport::Udp, ListenerState::Stopped), ListenerAction::Stop);
    assert_eq!(action(Transport::Udp, ListenerState::Aborted), ListenerAction::Abort);
}

#[test]
fn a_listener_survives_many_failed_peers() {
    let (mut state, _) = start(Transport::Udp);
    state = step(Transport::Udp, state, ListenerEvent::Bound).0;
    for round in 0..100 {
        state = step(Transport::Udp, state, ListenerEvent::PeerArrived).0;
        let served = if round % 2 == 0 { ListenerEvent::ServeFailed } else { ListenerEvent::Served };
        let (next, asked) = step(Transport::Udp, state, served);
        assert_eq!((next, asked), (ListenerState::Listening, ListenerAction::Receive));
        state = next;
    }
}

#[test]
fn labels_and_schemes() {
    assert_eq!(Transport::Tcp.label(), "TCP");
    assert_eq!(Transport::Tls.label(), "SSL");
    assert_eq!(Transport::Udp.label(), "UDP");
    assert_eq!(Transport::Tcp.scheme(), "tcp");
    assert_eq!(Transport::Tls.scheme(), "tls");
    assert_eq!(Transport::Udp.scheme(), "udp");
}

#[test]
fn a_plain_connection_starts_with_the_response() {
    assert_eq!(connection::start(Transport::Tcp), Some((ConnectionState::Writing, ConnectionAction::Write)));
}

#[test]
fn a_tls_connection_starts_with_the_handshake() {
    assert_eq!(connection::start(Transport::Tls), Some((ConnectionState::Handshaking, ConnectionAction::Handshake)));
}

#[test]
fn datagrams_have_no_connection() {
    assert_eq!(connection::start(Transport::Udp), None);
}

#[test]
fn a_connection_is_written_then_shut_down() {
    assert_eq!(advance(ConnectionState::Handshaking, true), (ConnectionState::Writing, ConnectionAction::Write));
    assert_eq!(advance(ConnectionState::Writing, true), (ConnectionState::Closing, ConnectionAction::Shutdown));
    assert_eq!(advance(ConnectionState::Closing, true), (ConnectionState::Closed, ConnectionAction::Finish));
}

#[test]
fn a_failed_step_ends_the_handler() {
    for state in [ConnectionState::Handshaking, ConnectionState::Writing, ConnectionState::Closing] {
        assert_eq!(advance(state, false), (ConnectionState::Failed, ConnectionAction::Finish));
    }
}

#[test]
fn an_ended_handler_stays_ended() {
    for succeeded in [true, false] {
        assert_eq!(advance(ConnectionState::Closed, succeeded), (ConnectionState::Closed, ConnectionAction::Finish));
        assert_eq!(advance(ConnectionState::Failed, succeeded), (ConnectionState::Failed, ConnectionAction::Finish));
    }
}

#[test]
fn the_handler_asks_for_the_step_of_its_state() {
    assert_eq!(asked(ConnectionState::Handshaking), ConnectionAction::Handshake);
    assert_eq!(asked(ConnectionState::Writing), ConnectionAction::Write);
    assert_eq!(asked(ConnectionState::Closing), ConnectionAction::Shutdown);
    assert_eq!(asked(ConnectionState::Closed), ConnectionAction::Finish);
    assert_eq!(asked(ConnectionState::Failed), ConnectionAction::Finish);
}

#[test]
fn a_handler_ends_within_three_steps() {
    for first in [ConnectionState::Handshaking, ConnectionState::Writing] {
        for outcomes in 0..8u8 {
            let mut state = first;
            for bit in 0..3 {
                state = advance(state, outcomes >> bit & 1 == 1).0;
            }
            assert!(matches!(state, ConnectionState::Closed | ConnectionState::Failed));
        }
    }
}
