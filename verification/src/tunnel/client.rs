//! The client side of a tunnel: binds a local port and keeps a connection to the host.

use vstd::arithmetic::power2;
use vstd::prelude::*;

use crate::addr::SocketAddr;
use crate::duration::Duration;
use crate::error::Error;
use crate::key::PublicKey;
use crate::protocol;
use crate::protocol::{write_frame, ConnReq, Hello, PROTOCOL_VERSION};
use crate::table::Table;
use crate::tunnel::{NodeAddr, RelayMode, TunnelProtocol};
use crate::wire::Message;

verus! {

/// Reconnection policy for a client tunnel.
#[derive(Debug, Clone, Copy, PartialEq, Eq, Structural)]
pub struct ReconnectPolicy {
    /// `None` = retry forever.
    pub max_attempts: Option<u32>,
    pub initial_backoff: Duration,
    pub max_backoff: Duration,
}

impl Default for ReconnectPolicy {
    fn default() -> (r: Self)
        ensures
            r.max_attempts is None,
            r.initial_backoff.nanos == 1_000_000_000,
            r.max_backoff.nanos == 60_000_000_000,
    {
        ReconnectPolicy {
            max_attempts: None,
            initial_backoff: Duration::from_secs(1),
            max_backoff: Duration::from_secs(60),
        }
    }
}

impl ReconnectPolicy {
    /// Reconnection disabled.
    pub fn none() -> (r: Self)
        ensures
            r.max_attempts == Some(0u32),
            r.initial_backoff.nanos == 0,
            r.max_backoff.nanos == 0,
    {
        ReconnectPolicy {
            max_attempts: Some(0),
            initial_backoff: Duration::from_secs(0),
            max_backoff: Duration::from_secs(0),
        }
    }

    /// Whether a tunnel that has failed `failures` times in a row before gives up when it fails
    /// again.
    pub open spec fn gives_up(self, failures: nat) -> bool {
        self.max_attempts matches Some(max) && failures >= max
    }

    /// The pause that follows a pause of length `backoff`: twice as long, within the limit; the
    /// first pause again where that would be none.
    pub open spec fn next_backoff(self, backoff: Duration) -> Duration {
        let next: u128 = if 2 * backoff.nanos <= self.max_backoff.nanos {
            (2 * backoff.nanos) as u128
        } else {
            self.max_backoff.nanos
        };
        if next == 0 {
            self.initial_backoff
        } else {
            Duration { nanos: next }
        }
    }

    /// The pause after `failures` failures in a row and one more.
    pub open spec fn backoff_after(self, failures: nat) -> Duration
        decreases failures,
    {
        if failures == 0 {
            self.initial_backoff
        } else {
            self.next_backoff(self.backoff_after((failures - 1) as nat))
        }
    }

    /// Pauses double from the initial one up to the limit; without a limit above zero, or without an
    /// initial pause, they stay as they are.
    pub proof fn lemma_backoff_doubles(self, failures: nat)
        ensures
            self.initial_backoff.nanos == 0 || self.max_backoff.nanos == 0
                ==> self.backoff_after(failures) == self.initial_backoff,
            self.initial_backoff.nanos > 0 && self.max_backoff.nanos > 0 && failures > 0
                ==> self.backoff_after(failures).nanos == {
                let grown = self.initial_backoff.nanos * power2::pow2(failures);
                if grown <= self.max_backoff.nanos {
                    grown
                } else {
                    self.max_backoff.nanos as int
                }
            },
        decreases failures,
    {
        if failures > 0 {
            let before = (failures - 1) as nat;
            self.lemma_backoff_doubles(before);
            power2::lemma_pow2_unfold(failures);
            power2::lemma_pow2_pos(before);
            let p = power2::pow2(before) as int;
            let i = self.initial_backoff.nanos as int;
            let q = power2::pow2(failures) as int;
            assert(i * q == 2 * (i * p)) by (nonlinear_arith)
                requires
                    q == 2 * p,
            ;
            if before == 0 {
                power2::lemma2_to64();
                assert(i * p == i) by (nonlinear_arith)
                    requires
                        p == 1,
                ;
            }
            assert(self.backoff_after(failures) == self.next_backoff(self.backoff_after(before)));
        }
    }

    /// Whether to try again when an attempt has failed.
    pub fn should_retry(&self, attempt: u32, cancelled: bool) -> (r: bool)
        ensures
            r == (!cancelled && !self.gives_up(attempt as nat)),
            r == (!cancelled && (self.max_attempts is None || attempt < self.max_attempts->0)),
    {
        if cancelled {
            return false;
        }
        match self.max_attempts {
            Some(max) => attempt < max,
            None => true,
        }
    }

    /// The pause that follows a pause.
    pub fn sleep_backoff(&self, backoff: Duration) -> (r: Duration)
        ensures
            r == self.next_backoff(backoff),
    {
        let next: Duration = backoff.doubled_within(self.max_backoff);
        if next.is_zero() {
            self.initial_backoff
        } else {
            next
        }
    }
}

/// Where the host is to be found.
#[derive(Debug)]
pub enum HostTarget {
    Key(PublicKey),
    Addr(NodeAddr),
}

/// How a client tunnel is to be set up.
#[derive(Debug)]
pub struct ClientTunnelBuilder {
    pub host: Option<HostTarget>,
    pub bind: Option<SocketAddr>,
    pub protocol: Option<TunnelProtocol>,
    pub name: String,
    pub relay: RelayMode,
    pub discovery: bool,
    pub reconnect: ReconnectPolicy,
}

impl Default for ClientTunnelBuilder {
    fn default() -> (r: Self)
        ensures
            r.host is None,
            r.bind is None,
            r.protocol is None,
            r.name@ == "client"@,
            r.relay == RelayMode::Default,
            r.discovery,
            r.reconnect.max_attempts is None,
            r.reconnect.initial_backoff.nanos == 1_000_000_000,
            r.reconnect.max_backoff.nanos == 60_000_000_000,
    {
        ClientTunnelBuilder {
            host: None,
            bind: None,
            protocol: None,
            name: String::from_str("client"),
            relay: RelayMode::Default,
            discovery: true,
            reconnect: ReconnectPolicy::default(),
        }
    }
}

impl ClientTunnelBuilder {
    /// Connect to a host by its public key.
    pub fn host_key(self, key: PublicKey) -> (r: Self)
        ensures
            r == (ClientTunnelBuilder { host: Some(HostTarget::Key(key)), ..self }),
    {
        ClientTunnelBuilder { host: Some(HostTarget::Key(key)), ..self }
    }

    /// Connect to a host by an explicit `NodeAddr`.
    pub fn host_addr(self, addr: NodeAddr) -> (r: Self)
        ensures
            r == (ClientTunnelBuilder { host: Some(HostTarget::Addr(addr)), ..self }),
    {
        ClientTunnelBuilder { host: Some(HostTarget::Addr(addr)), ..self }
    }

    /// The local address to listen on.
    pub fn bind(self, addr: SocketAddr) -> (r: Self)
        ensures
            r == (ClientTunnelBuilder { bind: Some(addr), ..self }),
    {
        ClientTunnelBuilder { bind: Some(addr), ..self }
    }

    /// The protocol of the traffic.
    pub fn protocol(self, p: TunnelProtocol) -> (r: Self)
        ensures
            r == (ClientTunnelBuilder { protocol: Some(p), ..self }),
    {
        ClientTunnelBuilder { protocol: Some(p), ..self }
    }

    /// The name of the tunnel.
    pub fn name(self, n: String) -> (r: Self)
        ensures
            r == (ClientTunnelBuilder { name: n, ..self }),
    {
        ClientTunnelBuilder { name: n, ..self }
    }

    /// The relays to use.
    pub fn relay(self, relay: RelayMode) -> (r: Self)
        ensures
            r == (ClientTunnelBuilder { relay, ..self }),
    {
        ClientTunnelBuilder { relay, ..self }
    }

    /// Whether to look hosts up.
    pub fn discovery(self, enable: bool) -> (r: Self)
        ensures
            r == (ClientTunnelBuilder { discovery: enable, ..self }),
    {
        ClientTunnelBuilder { discovery: enable, ..self }
    }

    /// What to do when the connection is lost.
    pub fn reconnect(self, policy: ReconnectPolicy) -> (r: Self)
        ensures
            r == (ClientTunnelBuilder { reconnect: policy, ..self }),
    {
        ClientTunnelBuilder { reconnect: policy, ..self }
    }

    /// Checks that nothing is missing. The local address in the plan is to be bound before the
    /// tunnel runs.
    pub fn start(self) -> (r: Result<ClientPlan, Error>)
        ensures
            r is Ok <==> self.host is Some && self.bind is Some && self.protocol is Some,
            r matches Ok(p) ==> p == (ClientPlan {
                host: self.host->0,
                bind: self.bind->0,
                protocol: self.protocol->0,
                name: self.name,
                relay: self.relay,
                discovery: self.discovery,
                reconnect: self.reconnect,
            }),
            r matches Err(e) ==> e.is_protocol(
                if self.host is None {
                    "host required"@
                } else if self.bind is None {
                    "bind required"@
                } else {
                    "protocol required"@
                },
            ),
    {
        let host: HostTarget = match self.host {
            Some(h) => h,
            None => return Err(Error::protocol("host required")),
        };
        let bind: SocketAddr = match self.bind {
            Some(b) => b,
            None => return Err(Error::protocol("bind required")),
        };
        let protocol: TunnelProtocol = match self.protocol {
            Some(p) => p,
            None => return Err(Error::protocol("protocol required")),
        };
        Ok(
            ClientPlan {
                host,
                bind,
                protocol,
                name: self.name,
                relay: self.relay,
                discovery: self.discovery,
                reconnect: self.reconnect,
            },
        )
    }
}

/// A client tunnel that can be started.
#[derive(Debug)]
pub struct ClientPlan {
    pub host: HostTarget,
    pub bind: SocketAddr,
    pub protocol: TunnelProtocol,
    pub name: String,
    pub relay: RelayMode,
    pub discovery: bool,
    pub reconnect: ReconnectPolicy,
}

/// Where the supervisor of a client tunnel stands.
#[derive(Debug, Clone, Copy, PartialEq, Eq, Structural)]
pub enum Phase {
    /// Not begun.
    Fresh,
    /// A fresh endpoint is being bound.
    Binding,
    /// The host is being connected to.
    Connecting,
    /// The greeting is being sent.
    Greeting,
    /// Traffic flows.
    Session,
    /// Connection and endpoint are being closed, to try again or for good.
    Closing { retry: bool },
    /// Waiting before the next attempt.
    Sleeping,
    /// Over.
    Stopped,
}

/// What happens to the supervisor of a client tunnel.
#[derive(Debug, Clone, Copy, PartialEq, Eq, Structural)]
pub enum SuperviseEvent {
    Begin,
    Bound,
    BindFailed,
    Connected,
    ConnectFailed,
    /// The shutdown came before the connection or the greeting was through.
    Interrupted,
    HelloSent,
    HelloFailed,
    SessionEnded,
    Closed,
    Woke,
}

/// Why a connection is closed.
#[derive(Debug, Clone, Copy, PartialEq, Eq, Structural)]
pub enum CloseReason {
    Cancelled,
    HelloFailed,
    SessionEnded,
}

impl CloseReason {
    /// The code that the peer sees.
    pub fn code(&self) -> (r: u32)
        ensures
            r == if *self is HelloFailed {
                1u32
            } else {
                0u32
            },
    {
        match self {
            CloseReason::HelloFailed => 1,
            _ => 0,
        }
    }

    /// The words that the peer sees.
    pub fn words(&self) -> (r: &'static str)
        ensures
            r@ == match *self {
                CloseReason::Cancelled => "cancelled"@,
                CloseReason::HelloFailed => "hello failed"@,
                CloseReason::SessionEnded => "session ended"@,
            },
    {
        match self {
            CloseReason::Cancelled => "cancelled",
            CloseReason::HelloFailed => "hello failed",
            CloseReason::SessionEnded => "session ended",
        }
    }
}

/// What the supervisor of a client tunnel does next.
#[derive(Debug, Clone, Copy, PartialEq, Eq, Structural)]
pub enum SuperviseAction {
    /// Bind a fresh endpoint.
    Bind,
    /// Connect to the host; a shutdown interrupts this.
    Connect,
    /// Send the greeting; a shutdown interrupts this.
    SendHello,
    /// Forward traffic of this protocol.
    RunSession(TunnelProtocol),
    /// Close the connection, where there is one, and the endpoint.
    Close(Option<CloseReason>),
    /// Wait; a shutdown cuts this short.
    Sleep(Duration),
    /// Stop for good.
    Stop,
}

/// The supervisor of a client tunnel.
#[derive(Debug, Clone, Copy, PartialEq, Eq, Structural)]
pub struct Supervisor {
    pub phase: Phase,
    /// Failures in a row so far.
    pub attempt: u32,
    /// The next pause.
    pub backoff: Duration,
    /// Whether traffic can flow.
    pub connected: bool,
}

impl Supervisor {
    /// A supervisor that has not begun.
    pub open spec fn fresh(policy: ReconnectPolicy) -> Supervisor {
        Supervisor {
            phase: Phase::Fresh,
            attempt: 0,
            backoff: policy.initial_backoff,
            connected: false,
        }
    }

    /// The tunnel counts as connected exactly while a session runs.
    pub open spec fn wf(self) -> bool {
        self.connected == (self.phase is Session)
    }

    /// Whether the event can come in this phase.
    pub open spec fn expects(self, event: SuperviseEvent) -> bool {
        match self.phase {
            Phase::Fresh => event is Begin,
            Phase::Binding => event is Bound || event is BindFailed,
            Phase::Connecting => event is Connected || event is ConnectFailed
                || event is Interrupted,
            Phase::Greeting => event is HelloSent || event is HelloFailed || event is Interrupted,
            Phase::Session => event is SessionEnded,
            Phase::Closing { retry } => event is Closed,
            Phase::Sleeping => event is Woke,
            Phase::Stopped => false,
        }
    }

    /// The beginning of an attempt.
    pub open spec fn attempts(self, cancelled: bool) -> (Supervisor, SuperviseAction) {
        if cancelled {
            (Supervisor { phase: Phase::Stopped, ..self }, SuperviseAction::Stop)
        } else {
            (Supervisor { phase: Phase::Binding, ..self }, SuperviseAction::Bind)
        }
    }

    /// The end of an attempt that failed.
    pub open spec fn fails(self, policy: ReconnectPolicy, cancelled: bool) -> (
        Supervisor,
        SuperviseAction,
    ) {
        if cancelled || policy.gives_up(self.attempt as nat) {
            (Supervisor { phase: Phase::Stopped, ..self }, SuperviseAction::Stop)
        } else {
            (
                Supervisor { phase: Phase::Sleeping, ..self },
                SuperviseAction::Sleep(self.backoff),
            )
        }
    }

    /// The way into a new phase.
    pub open spec fn enters(self, phase: Phase, action: SuperviseAction) -> (
        Supervisor,
        SuperviseAction,
    ) {
        (Supervisor { phase, ..self }, action)
    }

    /// What an event leads to.
    pub open spec fn after(
        self,
        policy: ReconnectPolicy,
        protocol: TunnelProtocol,
        event: SuperviseEvent,
        cancelled: bool,
    ) -> (Supervisor, SuperviseAction) {
        let retry = Phase::Closing { retry: true };
        let leave = Phase::Closing { retry: false };
        match event {
            SuperviseEvent::Begin => self.attempts(cancelled),
            SuperviseEvent::Bound => self.enters(Phase::Connecting, SuperviseAction::Connect),
            SuperviseEvent::BindFailed => self.fails(policy, cancelled),
            SuperviseEvent::Connected => self.enters(Phase::Greeting, SuperviseAction::SendHello),
            SuperviseEvent::ConnectFailed => self.enters(retry, SuperviseAction::Close(None)),
            SuperviseEvent::Interrupted => self.enters(
                leave,
                SuperviseAction::Close(
                    if self.phase is Greeting {
                        Some(CloseReason::Cancelled)
                    } else {
                        None
                    },
                ),
            ),
            SuperviseEvent::HelloSent => (
                Supervisor {
                    phase: Phase::Session,
                    attempt: 0,
                    backoff: policy.initial_backoff,
                    connected: true,
                },
                SuperviseAction::RunSession(protocol),
            ),
            SuperviseEvent::HelloFailed => self.enters(
                retry,
                SuperviseAction::Close(Some(CloseReason::HelloFailed)),
            ),
            SuperviseEvent::SessionEnded => (
                Supervisor { phase: retry, connected: false, ..self },
                SuperviseAction::Close(Some(CloseReason::SessionEnded)),
            ),
            SuperviseEvent::Closed => if self.phase == retry {
                self.fails(policy, cancelled)
            } else {
                self.enters(Phase::Stopped, SuperviseAction::Stop)
            },
            SuperviseEvent::Woke => (Supervisor {
                attempt: if self.attempt < u32::MAX {
                    (self.attempt + 1) as u32
                } else {
                    u32::MAX
                },
                backoff: policy.next_backoff(self.backoff),
                ..self
            }).attempts(cancelled),
        }
    }

    /// Whether the supervisor has failed `failures` times in a row.
    pub open spec fn after_failures(self, policy: ReconnectPolicy, failures: nat) -> bool {
        &&& self.attempt == if failures < u32::MAX {
            failures as u32
        } else {
            u32::MAX
        }
        &&& self.backoff == policy.backoff_after(failures)
    }

    /// Runs the supervisor of a client tunnel by one event.
    pub fn supervise(
        &mut self,
        policy: &ReconnectPolicy,
        protocol: TunnelProtocol,
        event: SuperviseEvent,
        cancelled: bool,
    ) -> (r: SuperviseAction)
        requires
            old(self).wf(),
            old(self).expects(event),
        ensures
            (*final(self), r) == old(self).after(*policy, protocol, event, cancelled),
            final(self).wf(),
    {
        match event {
            SuperviseEvent::Begin => self.begin_attempt(cancelled),
            SuperviseEvent::Bound => {
                self.phase = Phase::Connecting;
                SuperviseAction::Connect
            },
            SuperviseEvent::BindFailed => self.end_attempt(policy, cancelled),
            SuperviseEvent::Connected => {
                self.phase = Phase::Greeting;
                SuperviseAction::SendHello
            },
            SuperviseEvent::ConnectFailed => {
                self.phase = Phase::Closing { retry: true };
                SuperviseAction::Close(None)
            },
            SuperviseEvent::Interrupted => {
                let greeting: bool = self.phase == Phase::Greeting;
                self.phase = Phase::Closing { retry: false };
                if greeting {
                    SuperviseAction::Close(Some(CloseReason::Cancelled))
                } else {
                    SuperviseAction::Close(None)
                }
            },
            SuperviseEvent::HelloSent => {
                self.attempt = 0;
                self.backoff = policy.initial_backoff;
                self.connected = true;
                self.phase = Phase::Session;
                SuperviseAction::RunSession(protocol)
            },
            SuperviseEvent::HelloFailed => {
                self.phase = Phase::Closing { retry: true };
                SuperviseAction::Close(Some(CloseReason::HelloFailed))
            },
            SuperviseEvent::SessionEnded => {
                self.connected = false;
                self.phase = Phase::Closing { retry: true };
                SuperviseAction::Close(Some(CloseReason::SessionEnded))
            },
            SuperviseEvent::Closed => {
                if self.phase == (Phase::Closing { retry: true }) {
                    self.end_attempt(policy, cancelled)
                } else {
                    self.phase = Phase::Stopped;
                    SuperviseAction::Stop
                }
            },
            SuperviseEvent::Woke => {
                self.backoff = policy.sleep_backoff(self.backoff);
                self.attempt = self.attempt.saturating_add(1);
                self.begin_attempt(cancelled)
            },
        }
    }

    fn begin_attempt(&mut self, cancelled: bool) -> (r: SuperviseAction)
        ensures
            (*final(self), r) == old(self).attempts(cancelled),
    {
        if cancelled {
            self.phase = Phase::Stopped;
            SuperviseAction::Stop
        } else {
            self.phase = Phase::Binding;
            SuperviseAction::Bind
        }
    }

    fn end_attempt(&mut self, policy: &ReconnectPolicy, cancelled: bool) -> (r: SuperviseAction)
        ensures
            (*final(self), r) == old(self).fails(*policy, cancelled),
    {
        if policy.should_retry(self.attempt, cancelled) {
            self.phase = Phase::Sleeping;
            SuperviseAction::Sleep(self.backoff)
        } else {
            self.phase = Phase::Stopped;
            SuperviseAction::Stop
        }
    }

    /// A failure after `failures` failures in a row ends the tunnel exactly where the policy gives
    /// up; else the tunnel pauses, doubling the pause each time, and is then after one failure more.
    pub proof fn lemma_failure(
        self,
        policy: ReconnectPolicy,
        protocol: TunnelProtocol,
        failures: nat,
    )
        requires
            self.after_failures(policy, failures),
            self.wf(),
        ensures
            ({
                let (s, a) = self.fails(policy, false);
                if policy.gives_up(failures) {
                    a is Stop
                } else {
                    &&& a == SuperviseAction::Sleep(policy.backoff_after(failures))
                    &&& s.expects(SuperviseEvent::Woke)
                    &&& ({
                        let (t, b) = s.after(policy, protocol, SuperviseEvent::Woke, false);
                        b is Bind && t.after_failures(policy, failures + 1)
                    })
                }
            }),
    {
    }

    /// However an attempt fails, it ends as a failure does, with the failures so far unchanged: the
    /// endpoint cannot be bound, the host cannot be reached, or the greeting does not get through.
    pub proof fn lemma_attempt_fails(
        self,
        policy: ReconnectPolicy,
        protocol: TunnelProtocol,
        failures: nat,
        cancelled: bool,
    )
        requires
            self.phase is Binding,
            self.wf(),
            self.after_failures(policy, failures),
        ensures
            self.after(policy, protocol, SuperviseEvent::BindFailed, cancelled) == self.fails(
                policy,
                cancelled,
            ),
            ({
                let c = self.after(policy, protocol, SuperviseEvent::Bound, cancelled).0;
                let unreached = c.after(policy, protocol, SuperviseEvent::ConnectFailed, cancelled);
                let g = c.after(policy, protocol, SuperviseEvent::Connected, cancelled).0;
                let unheard = g.after(policy, protocol, SuperviseEvent::HelloFailed, cancelled);
                &&& unreached.1 == SuperviseAction::Close(None)
                &&& unreached.0.after(policy, protocol, SuperviseEvent::Closed, cancelled)
                    == unreached.0.fails(policy, cancelled)
                &&& unreached.0.after_failures(policy, failures)
                &&& unheard.1 == SuperviseAction::Close(Some(CloseReason::HelloFailed))
                &&& unheard.0.after(policy, protocol, SuperviseEvent::Closed, cancelled)
                    == unheard.0.fails(policy, cancelled)
                &&& unheard.0.after_failures(policy, failures)
            }),
    {
    }

    /// A session starts the count of failures over, and its end is treated as a first failure: the
    /// tunnel comes back after the initial pause unless reconnection is disabled.
    pub proof fn lemma_session_resets(self, policy: ReconnectPolicy, protocol: TunnelProtocol)
        requires
            self.phase is Greeting,
            self.wf(),
        ensures
            ({
                let (s, a) = self.after(policy, protocol, SuperviseEvent::HelloSent, false);
                let (e, b) = s.after(policy, protocol, SuperviseEvent::SessionEnded, false);
                let (f, c) = e.after(policy, protocol, SuperviseEvent::Closed, false);
                &&& a == SuperviseAction::RunSession(protocol)
                &&& s.connected
                &&& s.after_failures(policy, 0)
                &&& !e.connected
                &&& b == SuperviseAction::Close(Some(CloseReason::SessionEnded))
                &&& c == if policy.max_attempts == Some(0u32) {
                    SuperviseAction::Stop
                } else {
                    SuperviseAction::Sleep(policy.initial_backoff)
                }
            }),
    {
    }

    /// With no limit on attempts the tunnel retries forever: it stops for a shutdown only.
    pub proof fn lemma_retries_forever(
        self,
        policy: ReconnectPolicy,
        protocol: TunnelProtocol,
        event: SuperviseEvent,
    )
        requires
            self.expects(event),
            policy.max_attempts is None,
            self.phase != (Phase::Closing { retry: false }),
        ensures
            ({
                let (s, a) = self.after(policy, protocol, event, false);
                &&& a !is Stop
                &&& s.phase !is Stopped
                &&& event !is Interrupted ==> s.phase != (Phase::Closing { retry: false })
            }),
    {
    }

    /// How many events there can be, once a shutdown has been asked for, before the supervisor
    /// stops.
    pub open spec fn events_left(self) -> nat {
        match self.phase {
            Phase::Fresh => 1,
            Phase::Binding => 5,
            Phase::Connecting => 4,
            Phase::Greeting => 3,
            Phase::Session => 2,
            Phase::Closing { retry } => 1,
            Phase::Sleeping => 1,
            Phase::Stopped => 0,
        }
    }

    /// Once a shutdown has been asked for, every event brings the supervisor nearer to its end, and
    /// it never pauses or binds again.
    pub proof fn lemma_shutdown_is_bounded(
        self,
        policy: ReconnectPolicy,
        protocol: TunnelProtocol,
        event: SuperviseEvent,
    )
        requires
            self.expects(event),
        ensures
            ({
                let (s, a) = self.after(policy, protocol, event, true);
                &&& s.events_left() < self.events_left()
                &&& (a is Stop <==> s.phase is Stopped)
                &&& a !is Sleep
                &&& a !is Bind
            }),
    {
    }
}

/// The supervisor after some events. Each comes with whether a shutdown had been asked for by then.
pub open spec fn state_after(
    policy: ReconnectPolicy,
    protocol: TunnelProtocol,
    events: Seq<(SuperviseEvent, bool)>,
) -> Supervisor
    decreases events.len(),
{
    if events.len() == 0 {
        Supervisor::fresh(policy)
    } else {
        let before = state_after(policy, protocol, events.drop_last());
        before.after(policy, protocol, events.last().0, events.last().1).0
    }
}

/// Whether events can come in this order.
pub open spec fn possible(
    policy: ReconnectPolicy,
    protocol: TunnelProtocol,
    events: Seq<(SuperviseEvent, bool)>,
) -> bool
    decreases events.len(),
{
    events.len() > 0 ==> {
        &&& possible(policy, protocol, events.drop_last())
        &&& state_after(policy, protocol, events.drop_last()).expects(events.last().0)
    }
}

/// How many attempts have failed since the last session, or since the beginning, and were followed
/// by another.
pub open spec fn failures_in_row(events: Seq<(SuperviseEvent, bool)>) -> nat
    decreases events.len(),
{
    if events.len() == 0 {
        0
    } else {
        match events.last().0 {
            SuperviseEvent::HelloSent => 0,
            SuperviseEvent::Woke => failures_in_row(events.drop_last()) + 1,
            _ => failures_in_row(events.drop_last()),
        }
    }
}

/// Whatever has happened to a supervisor, its next pause and its patience are determined by the
/// failures since the last session alone.
pub proof fn lemma_failures_are_counted(
    policy: ReconnectPolicy,
    protocol: TunnelProtocol,
    events: Seq<(SuperviseEvent, bool)>,
)
    requires
        possible(policy, protocol, events),
    ensures
        state_after(policy, protocol, events).after_failures(policy, failures_in_row(events)),
        state_after(policy, protocol, events).wf(),
    decreases events.len(),
{
    if events.len() > 0 {
        lemma_failures_are_counted(policy, protocol, events.drop_last());
    }
}

/// Whatever has happened before, a pause lasts as long as the failures since the last session make
/// it, and the tunnel stops on its own, without a shutdown, exactly when they are too many.
pub proof fn lemma_next_step_by_failures(
    policy: ReconnectPolicy,
    protocol: TunnelProtocol,
    events: Seq<(SuperviseEvent, bool)>,
    event: SuperviseEvent,
    cancelled: bool,
)
    requires
        possible(policy, protocol, events.push((event, cancelled))),
    ensures
        ({
            let s = state_after(policy, protocol, events);
            let (t, a) = s.after(policy, protocol, event, cancelled);
            let n = failures_in_row(events);
            &&& a matches SuperviseAction::Sleep(d) ==> d == policy.backoff_after(n)
                && !policy.gives_up(n) && !cancelled
            &&& a is Stop && !cancelled && s.phase != (Phase::Closing { retry: false })
                ==> policy.gives_up(n)
            &&& event is BindFailed || s.phase == (Phase::Closing { retry: true }) ==> {
                if !cancelled && (policy.max_attempts is None || n < policy.max_attempts->0) {
                    a is Sleep
                } else {
                    a is Stop
                }
            }
            &&& t.connected <==> t.phase is Session
        }),
{
    assert(events.push((event, cancelled)).drop_last() =~= events);
    assert(events.push((event, cancelled)).last() == (event, cancelled));
    lemma_failures_are_counted(policy, protocol, events);
    lemma_failures_are_counted(policy, protocol, events.push((event, cancelled)));
}

/// A running client tunnel.
#[derive(Debug)]
pub struct ClientTunnel {
    pub name: String,
    pub bind: SocketAddr,
    pub protocol: TunnelProtocol,
    pub reconnect: ReconnectPolicy,
    pub supervisor: Supervisor,
    /// Forwarded streams that are open.
    pub active: usize,
    /// Whether the tunnel is being shut down.
    pub cancelled: bool,
}

impl ClientPlan {
    /// The tunnel, once its local address is bound; `actual_bind` is what it was bound to.
    pub fn started(&self, actual_bind: SocketAddr) -> (r: ClientTunnel)
        ensures
            r.name@ == self.name@,
            r.bind == actual_bind,
            r.protocol == self.protocol,
            r.reconnect == self.reconnect,
            r.supervisor == Supervisor::fresh(self.reconnect),
            r.supervisor.wf(),
            r.active == 0,
            !r.cancelled,
    {
        ClientTunnel {
            name: self.name.clone(),
            bind: actual_bind,
            protocol: self.protocol,
            reconnect: self.reconnect,
            supervisor: Supervisor {
                phase: Phase::Fresh,
                attempt: 0,
                backoff: self.reconnect.initial_backoff,
                connected: false,
            },
            active: 0,
            cancelled: false,
        }
    }
}

impl ClientTunnel {
    /// A builder with defaults.
    pub fn builder() -> (r: ClientTunnelBuilder)
        ensures
            r.host is None,
            r.bind is None,
            r.protocol is None,
            r.name@ == "client"@,
            r.relay == RelayMode::Default,
            r.discovery,
            r.reconnect.max_attempts is None,
            r.reconnect.initial_backoff.nanos == 1_000_000_000,
            r.reconnect.max_backoff.nanos == 60_000_000_000,
    {
        ClientTunnelBuilder::default()
    }

    /// The name of the tunnel.
    pub fn name(&self) -> (r: &str)
        ensures
            r@ == self.name@,
    {
        self.name.as_str()
    }

    /// The local address that the tunnel listens on.
    pub fn bind(&self) -> (r: SocketAddr)
        ensures
            r == self.bind,
    {
        self.bind
    }

    /// The protocol of the traffic.
    pub fn protocol(&self) -> (r: TunnelProtocol)
        ensures
            r == self.protocol,
    {
        self.protocol
    }

    /// How many forwarded streams are open.
    pub fn active_connections(&self) -> (r: usize)
        ensures
            r == self.active,
    {
        self.active
    }

    /// Whether traffic can flow.
    pub fn is_connected(&self) -> (r: bool)
        ensures
            r == self.supervisor.connected,
    {
        self.supervisor.connected
    }

    /// Asks for a shutdown.
    pub fn shutdown(&mut self)
        ensures
            *final(self) == (ClientTunnel { cancelled: true, ..*old(self) }),
    {
        self.cancelled = true;
    }

    /// Runs the supervisor by one event.
    pub fn supervise(&mut self, event: SuperviseEvent) -> (r: SuperviseAction)
        requires
            old(self).supervisor.wf(),
            old(self).supervisor.expects(event),
        ensures
            ({
                let next = old(self).supervisor.after(
                    old(self).reconnect,
                    old(self).protocol,
                    event,
                    old(self).cancelled,
                );
                &&& r == next.1
                &&& *final(self) == (ClientTunnel { supervisor: next.0, ..*old(self) })
            }),
            final(self).supervisor.wf(),
    {
        let policy: ReconnectPolicy = self.reconnect;
        let protocol: TunnelProtocol = self.protocol;
        let cancelled: bool = self.cancelled;
        self.supervisor.supervise(&policy, protocol, event, cancelled)
    }

    /// A forwarded stream has been opened.
    pub fn stream_started(&mut self)
        ensures
            *final(self) == (ClientTunnel {
                active: old(self).active.wrapping_add(1),
                ..*old(self)
            }),
    {
        self.active = self.active.wrapping_add(1);
    }

    /// A forwarded stream has been closed.
    pub fn stream_finished(&mut self)
        ensures
            *final(self) == (ClientTunnel {
                active: old(self).active.wrapping_sub(1),
                ..*old(self)
            }),
    {
        self.active = self.active.wrapping_sub(1);
    }
}

/// The greeting of this version, framed for the dedicated stream.
pub fn send_hello() -> (r: Result<Vec<u8>, Error>)
    ensures
        r matches Ok(v) && v@ == protocol::framed(
            (Hello { version: PROTOCOL_VERSION, capabilities: 0 }).wire(),
        ),
{
    let hello: Hello = Hello { version: PROTOCOL_VERSION, capabilities: 0 };
    proof {
        let any = ConnReq {
            client_local_addr: SocketAddr::V4 { ip: 0, port: 0 },
        };
        protocol::lemma_messages_fit(hello, any);
    }
    write_frame(&hello)
}

/// The request that announces a connection from `source`, framed for its stream.
fn conn_request(source: SocketAddr) -> (r: Result<Vec<u8>, Error>)
    ensures
        r matches Ok(v) && v@ == protocol::framed((ConnReq { client_local_addr: source }).wire()),
{
    let req: ConnReq = ConnReq { client_local_addr: source };
    proof {
        protocol::lemma_messages_fit(Hello { version: 0, capabilities: 0 }, req);
    }
    write_frame(&req)
}

/// What happens to a session.
#[derive(Debug, PartialEq, Eq)]
pub enum SessionEvent<T> {
    /// The tunnel is being shut down.
    Cancelled,
    /// The connection to the host is gone.
    Closed,
    /// The local side failed; more may come.
    LocalFailed,
    /// A stream could not be opened or written to.
    StreamFailed(Error),
    /// Something came from a local source.
    Local(SocketAddr, T),
}

/// What a TCP session does.
#[derive(Debug, PartialEq, Eq)]
pub enum TcpSessionAction<T> {
    /// The session is over.
    End,
    /// The session is over because of a failure.
    Fail(Error),
    /// Wait, then go on.
    Pause(Duration),
    /// Open a stream and write the request to it, then forward the connection, concurrently with
    /// the rest of the session.
    Forward { connection: T, request: Vec<u8> },
}

/// Runs a TCP session by one event: every accepted connection gets a stream of its own.
pub fn run_tcp_session<T>(event: SessionEvent<T>) -> (r: TcpSessionAction<T>)
    ensures
        match event {
            SessionEvent::Cancelled => r is End,
            SessionEvent::Closed => r is End,
            SessionEvent::LocalFailed => r matches TcpSessionAction::Pause(d) && d.nanos
                == 100_000_000,
            SessionEvent::StreamFailed(e) => r == TcpSessionAction::<T>::Fail(e),
            SessionEvent::Local(source, c) => r matches TcpSessionAction::Forward {
                connection,
                request,
            } && connection == c && request@ == protocol::framed(
                (ConnReq { client_local_addr: source }).wire(),
            ),
        },
{
    match event {
        SessionEvent::Cancelled => TcpSessionAction::End,
        SessionEvent::Closed => TcpSessionAction::End,
        SessionEvent::LocalFailed => TcpSessionAction::Pause(Duration::from_millis(100)),
        SessionEvent::StreamFailed(e) => TcpSessionAction::Fail(e),
        SessionEvent::Local(source, connection) => match conn_request(source) {
            Ok(request) => TcpSessionAction::Forward { connection, request },
            Err(e) => TcpSessionAction::Fail(e),
        },
    }
}

/// How many datagrams wait for a UDP session at most.
pub const UDP_QUEUE: usize = 64;

/// What a UDP session does.
#[derive(Debug)]
pub enum UdpSessionAction<'a, H> {
    /// The session is over.
    End,
    /// The session is over because of a failure.
    Fail(Error),
    /// Wait, then go on.
    Pause(Duration),
    /// Hand the datagram to the source's own forwarder.
    Deliver(&'a H, Vec<u8>),
    /// Open a stream, write the request to it, and start a forwarder for the source with this
    /// datagram as its first.
    Open { request: Vec<u8>, payload: Vec<u8> },
}

/// The forwarders of a UDP session, one for each source that has sent something. `H` is the handle
/// of a forwarder.
#[derive(Debug)]
pub struct UdpSessions<H> {
    sessions: Table<SocketAddr, H>,
}

impl<H> View for UdpSessions<H> {
    type V = Map<SocketAddr, H>;

    closed spec fn view(&self) -> Map<SocketAddr, H> {
        self.sessions@
    }
}

impl<H> UdpSessions<H> {
    /// Every source has at most one forwarder.
    pub closed spec fn wf(&self) -> bool {
        self.sessions.wf()
    }

    /// No forwarder yet.
    pub fn new() -> (r: Self)
        ensures
            r.wf(),
            r@ == Map::<SocketAddr, H>::empty(),
    {
        UdpSessions { sessions: Table::new() }
    }

    /// Runs a UDP session by one event: a datagram goes, as it is, to the forwarder of its source,
    /// or a forwarder is started for it.
    pub fn run_udp_session(&self, event: SessionEvent<Vec<u8>>) -> (r: UdpSessionAction<'_, H>)
        requires
            self.wf(),
        ensures
            match event {
                SessionEvent::Cancelled => r is End,
                SessionEvent::Closed => r is End,
                SessionEvent::LocalFailed => r matches UdpSessionAction::Pause(d) && d.nanos
                    == 100_000_000,
                SessionEvent::StreamFailed(e) => r == UdpSessionAction::<H>::Fail(e),
                SessionEvent::Local(source, data) => if self@.contains_key(source) {
                    r matches UdpSessionAction::Deliver(h, payload) && *h == self@[source]
                        && payload == data
                } else {
                    r matches UdpSessionAction::Open { request, payload } && request@
                        == protocol::framed((ConnReq { client_local_addr: source }).wire())
                        && payload == data
                },
            },
    {
        match event {
            SessionEvent::Cancelled => UdpSessionAction::End,
            SessionEvent::Closed => UdpSessionAction::End,
            SessionEvent::LocalFailed => UdpSessionAction::Pause(Duration::from_millis(100)),
            SessionEvent::StreamFailed(e) => UdpSessionAction::Fail(e),
            SessionEvent::Local(source, payload) => match self.sessions.get(source) {
                Some(h) => UdpSessionAction::Deliver(h, payload),
                None => match conn_request(source) {
                    Ok(request) => UdpSessionAction::Open { request, payload },
                    Err(e) => UdpSessionAction::Fail(e),
                },
            },
        }
    }

    /// A forwarder has been started for a source.
    pub fn opened(&mut self, source: SocketAddr, handle: H)
        requires
            old(self).wf(),
        ensures
            final(self).wf(),
            final(self)@ == old(self)@.insert(source, handle),
    {
        let _ = self.sessions.insert(source, handle);
    }

    /// The forwarder of a source has ended, or takes no more datagrams.
    pub fn closed(&mut self, source: SocketAddr)
        requires
            old(self).wf(),
        ensures
            final(self).wf(),
            final(self)@ == old(self)@.remove(source),
    {
        let _ = self.sessions.remove(source);
    }
}

} // verus!
