//! The decisions of the process that starts the listeners: which transports
//! are served, what has to be prepared for them and in which order, and
//! whether the process goes on once listeners have ended.

use crate::listener::{ListenerState, Transport};
use vstd::prelude::*;

verus! {

/// What the service is started with. A port of 0 switches its transport off.
#[derive(Debug, Clone)]
pub struct ServerConfiguration {
    /// The address to bind.
    pub host: String,
    /// The port of the plain TCP listener.
    pub tcp_port: u16,
    /// The port of the TLS listener.
    pub tls_port: u16,
    /// The port of the UDP listener.
    pub udp_port: u16,
    /// The path of the PEM certificate chain.
    pub tls_cert: String,
    /// The path of the PEM private key.
    pub tls_key: String,
    /// The path of the quote database.
    pub database: String,
    /// The format of the quote database: `default`, or its separator.
    pub format: String,
}

/// One step of starting the service.
#[derive(Debug, Clone, Copy, PartialEq, Eq, Structural)]
pub enum StartupStep {
    /// Load the quote store. A failure ends the process.
    LoadDatabase,
    /// Build the TLS server configuration. A failure ends the process.
    BuildTls,
    /// Start the listener of a transport as a task of its own.
    Listen(Transport),
}

/// What the process does about its listeners.
#[derive(Debug, Clone, Copy, PartialEq, Eq, Structural)]
pub enum Supervision {
    /// No listener was started: stay idle for good.
    Idle,
    /// Wait for the next listener to end.
    Watch,
    /// End the process with an error.
    Exit,
}

/// The step that starts the listener of `transport`, if its port is not 0.
pub open spec fn listen_step(transport: Transport, port: u16) -> Seq<StartupStep> {
    if port != 0 {
        seq![StartupStep::Listen(transport)]
    } else {
        seq![]
    }
}

/// The steps that prepare and start the TLS listener, if its port is not 0.
pub open spec fn tls_steps(port: u16) -> Seq<StartupStep> {
    if port != 0 {
        seq![StartupStep::BuildTls, StartupStep::Listen(Transport::Tls)]
    } else {
        seq![]
    }
}

/// The number of listeners that `steps` start.
pub open spec fn listeners_in(steps: Seq<StartupStep>) -> nat {
    steps.filter(|step: StartupStep| step is Listen).len()
}

impl ServerConfiguration {
    /// The configured port of `transport`.
    pub open spec fn port_of(&self, transport: Transport) -> u16 {
        match transport {
            Transport::Tcp => self.tcp_port,
            Transport::Tls => self.tls_port,
            Transport::Udp => self.udp_port,
        }
    }

    /// The steps of starting the service, in order: the quote store first,
    /// then TCP, TLS with its configuration, and UDP, each only where its
    /// port is not 0.
    pub open spec fn plan(&self) -> Seq<StartupStep> {
        seq![StartupStep::LoadDatabase] + listen_step(Transport::Tcp, self.tcp_port) + tls_steps(
            self.tls_port,
        ) + listen_step(Transport::Udp, self.udp_port)
    }

    /// The configured port of `transport`.
    pub fn port(&self, transport: Transport) -> (port: u16)
        ensures
            port == self.port_of(transport),
    {
        match transport {
            Transport::Tcp => self.tcp_port,
            Transport::Tls => self.tls_port,
            Transport::Udp => self.udp_port,
        }
    }

    /// Whether `transport` is served.
    pub fn serves(&self, transport: Transport) -> (served: bool)
        ensures
            served == (self.port_of(transport) != 0),
    {
        self.port(transport) != 0
    }

    /// The steps of starting the service, in order.
    pub fn startup_plan(&self) -> (steps: Vec<StartupStep>)
        ensures
            steps@ == self.plan(),
    {
        let mut steps: Vec<StartupStep> = Vec::new();
        steps.push(StartupStep::LoadDatabase);
        if self.tcp_port != 0 {
            steps.push(StartupStep::Listen(Transport::Tcp));
        }
        if self.tls_port != 0 {
            steps.push(StartupStep::BuildTls);
            steps.push(StartupStep::Listen(Transport::Tls));
        }
        if self.udp_port != 0 {
            steps.push(StartupStep::Listen(Transport::Udp));
        }
        assert(steps@ =~= self.plan());
        steps
    }
}

/// What the process does once `started` listeners run: with none it stays
/// idle, it does not end.
pub fn after_startup(started: usize) -> (then: Supervision)
    ensures
        then == if started == 0 {
            Supervision::Idle
        } else {
            Supervision::Watch
        },
{
    if started == 0 {
        Supervision::Idle
    } else {
        Supervision::Watch
    }
}

/// What the process does once a listener has ended in state `last` and
/// `running` others still run: a listener that aborted ends the process, as
/// does the end of the last listener; otherwise the others go on.
pub fn after_listener_end(last: ListenerState, running: usize) -> (then: Supervision)
    ensures
        then == if last == ListenerState::Aborted || running == 0 {
            Supervision::Exit
        } else {
            Supervision::Watch
        },
{
    match last {
        ListenerState::Aborted => Supervision::Exit,
        _ => if running == 0 {
            Supervision::Exit
        } else {
            Supervision::Watch
        },
    }
}

/// A transport is listened on exactly where its port is not 0, and the TLS
/// configuration is built exactly where TLS is served.
pub proof fn lemma_plan_follows_ports(config: ServerConfiguration, transport: Transport)
    ensures
        config.plan().contains(StartupStep::Listen(transport)) <==> config.port_of(transport) != 0,
        config.plan().contains(StartupStep::BuildTls) <==> config.tls_port != 0,
        config.plan().first() == StartupStep::LoadDatabase,
{
    let plan = config.plan();
    let tcp = listen_step(Transport::Tcp, config.tcp_port);
    let tls = tls_steps(config.tls_port);
    let udp = listen_step(Transport::Udp, config.udp_port);
    if config.tcp_port != 0 {
        assert(plan[1] == StartupStep::Listen(Transport::Tcp));
    }
    if config.tls_port != 0 {
        assert(plan[1 + tcp.len() as int] == StartupStep::BuildTls);
        assert(plan[2 + tcp.len() as int] == StartupStep::Listen(Transport::Tls));
    }
    if config.udp_port != 0 {
        assert(plan[1 + tcp.len() as int + tls.len() as int] == StartupStep::Listen(Transport::Udp));
    }
}

/// With every port 0 nothing is listened on: the plan is to load the quote
/// store and no more, and the process then stays idle.
pub proof fn lemma_nothing_served(config: ServerConfiguration)
    requires
        config.tcp_port == 0,
        config.tls_port == 0,
        config.udp_port == 0,
    ensures
        config.plan() == seq![StartupStep::LoadDatabase],
        listeners_in(config.plan()) == 0,
{
    assert(config.plan() =~= seq![StartupStep::LoadDatabase]);
    reveal(Seq::filter);
    assert(seq![StartupStep::LoadDatabase].drop_last() =~= Seq::<StartupStep>::empty());
}

} // verus!
