use rqotdd::listener::{ListenerState, Transport};
use rqotdd::startup::{after_listener_end, after_startup, ServerConfiguration, StartupStep, Supervision};

fn configuration(tcp_port: u16, tls_port: u16, udp_port: u16) -> ServerConfiguration {
    ServerConfiguration {
        host: "0.0.0.0".to_string(),
        tcp_port,
        tls_port,
        udp_port,
        tls_cert: "ssl.crt".to_string(),
        tls_key: "ssl.key".to_string(),
        database: "database.txt".to_string(),
        format: "default".to_string(),
    }
}

#[test]
fn the_usual_ports_start_everything() {
    assert_eq!(
        configuration(17, 787, 17).startup_plan(),
        vec![
            StartupStep::LoadDatabase,
            StartupStep::Listen(Transport::Tcp),
            StartupStep::BuildTls,
            StartupStep::Listen(Transport::Tls),
            StartupStep::Listen(Transport::Udp),
        ]
    );
}

#[test]
fn no_port_no_listener() {
    assert_eq!(configuration(0, 0, 0).startup_plan(), vec![StartupStep::LoadDatabase]);
}

#[test]
fn tls_is_prepared_only_where_it_is_served() {
    assert_eq!(configuration(17, 0, 17).startup_plan(), vec![StartupStep::LoadDatabase, StartupStep::Listen(Transport::Tcp), StartupStep::Listen(Transport::Udp)]);
    assert_eq!(configuration(0, 787, 0).startup_plan(), vec![StartupStep::LoadDatabase, StartupStep::BuildTls, StartupStep::Listen(Transport::Tls)]);
}

#[test]
fn each_port_switches_its_own_transport() {
    assert_eq!(configuration(1, 0, 0).startup_plan(), vec![StartupStep::LoadDatabase, StartupStep::Listen(Transport::Tcp)]);
    assert_eq!(configuration(0, 0, 65535).startup_plan(), vec![StartupStep::LoadDatabase, StartupStep::Listen(Transport::Udp)]);
}

#[test]
fn ports_by_transport() {
    let config = configuration(17, 787, 1717);
    assert_eq!(config.port(Transport::Tcp), 17);
    assert_eq!(config.port(Transport::Tls), 787);
    assert_eq!(config.port(Transport::Udp), 1717);
}

#[test]
fn a_transport_is_served_where_its_port_is_not_zero() {
    let config = configuration(17, 0, 1);
    assert!(config.serves(Transport::Tcp));
    assert!(!config.serves(Transport::Tls));
    assert!(config.serves(Transport::Udp));
}

#[test]
fn without_listeners_the_process_idles() {
    assert_eq!(after_startup(0), Supervision::Idle);
}

#[test]
fn with_listeners_the_process_watches_them() {
    assert_eq!(after_startup(1), Supervision::Watch);
    assert_eq!(after_startup(3), Supervision::Watch);
}

#[test]
fn an_aborted_listener_ends_the_process() {
    assert_eq!(after_listener_end(ListenerState::Aborted, 2), Supervision::Exit);
    assert_eq!(after_listener_end(ListenerState::Aborted, 0), Supervision::Exit);
}

#[test]
fn a_stopped_listener_leaves_the_others_running() {
    assert_eq!(after_listener_end(ListenerState::Stopped, 2), Supervision::Watch);
    assert_eq!(after_listener_end(ListenerState::Stopped, 1), Supervision::Watch);
}

#[test]
fn the_last_listener_to_stop_ends_the_process() {
    assert_eq!(after_listener_end(ListenerState::Stopped, 0), Supervision::Exit);
}
