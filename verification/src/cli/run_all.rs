//! Running all enabled tunnels until they are told to stop.

use vstd::prelude::*;

use crate::cli::config::{ClientEntry, Config, HostEntry};
use crate::cli::run;
use crate::cli::run::{decode_public_key, decode_secret_key, place_text, Cause, CliError};
use crate::error::Error;
use crate::key;
use crate::key::{HexError, PublicKey, SecretKey};
use crate::named;
use crate::named::{drop_disabled, Named};
use crate::tunnel::client::{ClientTunnel, ClientTunnelBuilder, HostTarget, ReconnectPolicy};
use crate::tunnel::host::{HostTunnel, HostTunnelBuilder};
use crate::tunnel::RelayMode;

verus! {

/// Where the program stands.
#[derive(Debug, Clone, Copy, PartialEq, Eq, Structural)]
pub enum RunPhase {
    /// Not begun.
    Fresh,
    /// Tunnels are being started.
    Starting,
    /// All tunnels run.
    Running,
    /// All tunnels are being shut down, perhaps because a host tunnel died.
    Stopping { died: Option<usize> },
    /// Over.
    Done,
}

/// What happens to the program.
#[derive(Debug)]
pub enum RunEvent {
    Begin,
    /// The tunnel that was being started is up.
    Started,
    /// The tunnel that was being started cannot be.
    StartFailed(Error),
    /// The user wants to stop.
    Interrupt,
    /// It is not possible to wait for the user.
    SignalFailed(String),
    /// A host tunnel died on its own.
    HostDied(usize),
    /// All tunnels are down.
    Down,
}

/// What the program does next.
#[derive(Debug)]
pub enum RunAction {
    StartHost(HostTunnelBuilder),
    StartClient(ClientTunnelBuilder),
    /// Wait for the user or for the death of a host tunnel.
    Wait,
    /// Shut all tunnels down, hosts first, each in the order in which it was started.
    ShutDown,
    /// End the program.
    Exit(Result<(), CliError>),
}

/// A step of the program: what it prints, and what it does then.
#[derive(Debug)]
pub struct RunStep {
    pub say: String,
    pub action: RunAction,
}

/// The program while it runs tunnels.
#[derive(Debug)]
pub struct RunAll {
    pub hosts: Vec<HostEntry>,
    pub clients: Vec<ClientEntry>,
    pub reconnect: Option<ReconnectPolicy>,
    /// How many host tunnels are up; these are started first.
    pub hosts_up: usize,
    /// How many client tunnels are up.
    pub clients_up: usize,
    pub phase: RunPhase,
}

/// What is printed when there is nothing to run.
pub open spec fn nothing_words() -> Seq<char> {
    "No enabled tunnels. Add one with `lantun add-host` or `lantun add-client`.\n"@
}

/// What is printed when a host tunnel is up.
pub open spec fn host_up_words(t: HostEntry) -> Seq<char> {
    "host \""@ + t.name@ + "\" listening for peers on "@ + run::place(t.local, t.protocol)
        + " (public key "@ + t.spec_public_key_hex() + ")\n"@
}

/// What is printed when a client tunnel is up.
pub open spec fn client_up_words(t: ClientEntry) -> Seq<char> {
    "client \""@ + t.name@ + "\" bound to "@ + run::place(t.local, t.protocol) + "\n"@
}

/// The words for a host tunnel that died.
pub open spec fn died_words(name: Seq<char>) -> Seq<char> {
    "host tunnel \""@ + name + "\" died unexpectedly — exiting..."@
}

/// Whether `b` is how a configured host tunnel with the secret key `secret` is started.
pub open spec fn host_start(t: HostEntry, secret: Seq<u8>, b: HostTunnelBuilder) -> bool {
    &&& b.secret matches Some(k) && k@ == secret
    &&& b.forward_to == Some(t.local)
    &&& b.protocol == Some(t.protocol)
    &&& b.name@ == t.name@
    &&& b.relay == RelayMode::Default
    &&& b.discovery
    &&& b.bind_v4 is None
}

/// Whether `b` is how a configured client tunnel with the host's key `host_key` is started.
pub open spec fn client_start(
    t: ClientEntry,
    host_key: Seq<u8>,
    reconnect: Option<ReconnectPolicy>,
    b: ClientTunnelBuilder,
) -> bool {
    &&& b.host matches Some(HostTarget::Key(k)) && k@ == host_key && k.wf()
    &&& b.bind == Some(t.local)
    &&& b.protocol == Some(t.protocol)
    &&& b.name@ == t.name@
    &&& b.relay == RelayMode::Default
    &&& b.discovery
    &&& match reconnect {
        Some(p) => b.reconnect == p,
        None => b.reconnect.max_attempts is None && b.reconnect.initial_backoff.nanos
            == 1_000_000_000 && b.reconnect.max_backoff.nanos == 60_000_000_000,
    }
}

impl RunAll {
    /// The tunnels that are up are among those that are to be run.
    pub open spec fn wf(self) -> bool {
        &&& self.hosts_up <= self.hosts@.len()
        &&& self.clients_up <= self.clients@.len()
        &&& self.phase is Starting ==> self.hosts_up < self.hosts@.len() || self.clients_up
            < self.clients@.len()
        &&& self.phase matches RunPhase::Stopping { died: Some(i) } ==> i < self.hosts@.len()
    }

    /// Whether the event can come in this phase.
    pub open spec fn expects(self, event: RunEvent) -> bool {
        match self.phase {
            RunPhase::Fresh => event is Begin,
            RunPhase::Starting => event is Started || event is StartFailed,
            RunPhase::Running => event is Interrupt || event is SignalFailed || (event matches
                RunEvent::HostDied(i) && i < self.hosts@.len()),
            RunPhase::Stopping { died } => event is Down,
            RunPhase::Done => false,
        }
    }

    /// Same tunnels and settings.
    pub open spec fn same_tunnels(self, other: RunAll) -> bool {
        &&& self.hosts@ == other.hosts@
        &&& self.clients@ == other.clients@
        &&& self.reconnect == other.reconnect
    }

    /// What follows when so many tunnels are up: the next one is started, if its key can be read, or
    /// the program waits.
    pub open spec fn proceeds(self, say: Seq<char>, action: RunAction) -> bool {
        if self.hosts_up < self.hosts@.len() {
            let t = self.hosts@[self.hosts_up as int];
            &&& say == Seq::<char>::empty()
            &&& match key::hex_result(t.secret_key@) {
                Err(why) => action matches RunAction::Exit(Err(e)) && self.phase is Done
                    && e.message@ == "secret_key is not valid hex"@ && e.cause == Some(
                    Cause::Hex(why),
                ),
                Ok(bytes) => if bytes.len() != 32 {
                    action matches RunAction::Exit(Err(e)) && self.phase is Done && e.says(
                        "secret_key must be 32 bytes"@,
                    )
                } else {
                    action matches RunAction::StartHost(b) && self.phase is Starting && host_start(
                        t,
                        bytes,
                        b,
                    )
                },
            }
        } else if self.clients_up < self.clients@.len() {
            let t = self.clients@[self.clients_up as int];
            &&& say == Seq::<char>::empty()
            &&& match key::hex_result(t.host_key@) {
                Err(why) => action matches RunAction::Exit(Err(e)) && self.phase is Done
                    && e.message@ == "public_key is not valid hex"@ && e.cause == Some(
                    Cause::Hex(why),
                ),
                Ok(bytes) => if bytes.len() != 32 {
                    action matches RunAction::Exit(Err(e)) && self.phase is Done && e.says(
                        "public_key must be 32 bytes"@,
                    )
                } else {
                    match key::public_key_read(bytes) {
                        Err(why) => action matches RunAction::Exit(Err(e)) && self.phase is Done
                            && e.says("invalid public key: "@ + why),
                        Ok(_) => action matches RunAction::StartClient(b) && self.phase is Starting
                            && client_start(t, bytes, self.reconnect, b),
                    }
                },
            }
        } else {
            &&& self.phase is Running
            &&& say == "Press Ctrl-C to stop.\n"@
            &&& action is Wait
        }
    }

    /// What is printed when the tunnel that was being started is up.
    pub open spec fn up_words(self) -> Seq<char> {
        if self.hosts_up < self.hosts@.len() {
            host_up_words(self.hosts@[self.hosts_up as int])
        } else {
            client_up_words(self.clients@[self.clients_up as int])
        }
    }

    /// The enabled tunnels of a configuration, none of them started. `reconnect` is the policy that
    /// the environment asks for.
    pub fn new(cfg: Config, reconnect: Option<ReconnectPolicy>) -> (r: RunAll)
        ensures
            r.hosts@ == named::enabled_only(cfg.host_tunnels@),
            r.clients@ == named::enabled_only(cfg.client_tunnels@),
            r.hosts@ == cfg.host_tunnels@.filter(|t: HostEntry| t.enabled),
            r.clients@ == cfg.client_tunnels@.filter(|t: ClientEntry| t.enabled),
            r.reconnect == reconnect,
            r.hosts_up == 0,
            r.clients_up == 0,
            r.phase is Fresh,
            r.wf(),
    {
        proof {
            assert(named::switched_on::<HostEntry>() =~= (|t: HostEntry| t.enabled));
            assert(named::switched_on::<ClientEntry>() =~= (|t: ClientEntry| t.enabled));
        }
        let mut hosts: Vec<HostEntry> = cfg.host_tunnels;
        let mut clients: Vec<ClientEntry> = cfg.client_tunnels;
        drop_disabled(&mut hosts);
        drop_disabled(&mut clients);
        RunAll { hosts, clients, reconnect, hosts_up: 0, clients_up: 0, phase: RunPhase::Fresh }
    }

    fn proceed(&mut self) -> (r: RunStep)
        requires
            old(self).hosts_up <= old(self).hosts@.len(),
            old(self).clients_up <= old(self).clients@.len(),
        ensures
            final(self).same_tunnels(*old(self)),
            final(self).hosts_up == old(self).hosts_up,
            final(self).clients_up == old(self).clients_up,
            final(self).wf(),
            final(self).proceeds(r.say@, r.action),
    {
        if self.hosts_up < self.hosts.len() {
            let secret: SecretKey = match decode_secret_key(
                self.hosts[self.hosts_up].secret_key.as_str(),
            ) {
                Ok(k) => k,
                Err(e) => {
                    self.phase = RunPhase::Done;
                    return RunStep { say: String::new(), action: RunAction::Exit(Err(e)) };
                },
            };
            self.phase = RunPhase::Starting;
            let t: &HostEntry = &self.hosts[self.hosts_up];
            let builder: HostTunnelBuilder = HostTunnel::builder().secret(secret).forward_to(
                t.local,
            ).protocol(t.protocol).name(t.name.clone());
            return RunStep { say: String::new(), action: RunAction::StartHost(builder) };
        }
        if self.clients_up < self.clients.len() {
            let key: PublicKey = match decode_public_key(
                self.clients[self.clients_up].host_key.as_str(),
            ) {
                Ok(k) => k,
                Err(e) => {
                    self.phase = RunPhase::Done;
                    return RunStep { say: String::new(), action: RunAction::Exit(Err(e)) };
                },
            };
            self.phase = RunPhase::Starting;
            let t: &ClientEntry = &self.clients[self.clients_up];
            let builder: ClientTunnelBuilder = ClientTunnel::builder().host_key(key).bind(
                t.local,
            ).protocol(t.protocol).name(t.name.clone());
            let builder: ClientTunnelBuilder = match self.reconnect {
                Some(policy) => builder.reconnect(policy),
                None => builder,
            };
            return RunStep { say: String::new(), action: RunAction::StartClient(builder) };
        }
        self.phase = RunPhase::Running;
        RunStep { say: String::from_str("Press Ctrl-C to stop.\n"), action: RunAction::Wait }
    }

    fn up_text(&self) -> (r: String)
        requires
            self.hosts_up < self.hosts@.len() || self.clients_up < self.clients@.len(),
        ensures
            r@ == self.up_words(),
    {
        if self.hosts_up < self.hosts.len() {
            let t: &HostEntry = &self.hosts[self.hosts_up];
            String::from_str("host \"").concat(t.name.as_str()).concat(
                "\" listening for peers on ",
            ).concat(place_text(t.local, t.protocol).as_str()).concat(" (public key ").concat(
                t.public_key_hex().as_str(),
            ).concat(")\n")
        } else {
            let t: &ClientEntry = &self.clients[self.clients_up];
            String::from_str("client \"").concat(t.name.as_str()).concat("\" bound to ").concat(
                place_text(t.local, t.protocol).as_str(),
            ).concat("\n")
        }
    }

    /// Runs the program by one event.
    pub fn run_all(&mut self, event: RunEvent) -> (r: RunStep)
        requires
            old(self).wf(),
            old(self).expects(event),
        ensures
            final(self).wf(),
            final(self).same_tunnels(*old(self)),
            r.action matches RunAction::StartHost(b) ==> {
                let t = old(self).hosts@[final(self).hosts_up as int];
                &&& final(self).hosts_up < old(self).hosts@.len()
                &&& b.secret is Some && key::hex_result(t.secret_key@) == Ok::<Seq<u8>, HexError>(
                    b.secret->0@,
                )
                &&& b.forward_to == Some(t.local)
                &&& b.protocol == Some(t.protocol)
                &&& b.name@ == t.name@
                &&& b.relay == RelayMode::Default
                &&& b.discovery
                &&& b.bind_v4 is None
            },
            r.action matches RunAction::StartClient(b) ==> {
                let t = old(self).clients@[final(self).clients_up as int];
                &&& final(self).hosts_up == old(self).hosts@.len()
                &&& final(self).clients_up < old(self).clients@.len()
                &&& b.host matches Some(HostTarget::Key(k)) && key::hex_result(t.host_key@) == Ok::<
                    Seq<u8>,
                    HexError,
                >(k@) && k.wf()
                &&& b.bind == Some(t.local)
                &&& b.protocol == Some(t.protocol)
                &&& b.name@ == t.name@
                &&& b.relay == RelayMode::Default
                &&& b.discovery
                &&& old(self).reconnect is Some ==> b.reconnect == old(self).reconnect->0
            },
            match event {
                RunEvent::Begin => if old(self).hosts@.len() == 0 && old(self).clients@.len() == 0 {
                    &&& r.say@ == nothing_words()
                    &&& r.action == RunAction::Exit(Ok(()))
                    &&& final(self).phase is Done
                } else {
                    &&& final(self).hosts_up == old(self).hosts_up
                    &&& final(self).clients_up == old(self).clients_up
                    &&& final(self).proceeds(r.say@, r.action)
                },
                RunEvent::Started => {
                    &&& if old(self).hosts_up < old(self).hosts@.len() {
                        &&& final(self).hosts_up == old(self).hosts_up + 1
                        &&& final(self).clients_up == old(self).clients_up
                    } else {
                        &&& final(self).hosts_up == old(self).hosts_up
                        &&& final(self).clients_up == old(self).clients_up + 1
                    }
                    &&& exists|say: Seq<char>|
                        r.say@ == old(self).up_words() + say && #[trigger] final(self).proceeds(
                            say,
                            r.action,
                        )
                },
                RunEvent::StartFailed(why) => {
                    let (words, name) = if old(self).hosts_up < old(self).hosts@.len() {
                        (
                            "failed to start host tunnel "@,
                            old(self).hosts@[old(self).hosts_up as int].name@,
                        )
                    } else {
                        (
                            "failed to start client tunnel "@,
                            old(self).clients@[old(self).clients_up as int].name@,
                        )
                    };
                    &&& r.say@ == Seq::<char>::empty()
                    &&& r.action matches RunAction::Exit(Err(e)) && e.message@ == words + name
                        && e.cause == Some(Cause::Tunnel(why))
                    &&& final(self).phase is Done
                },
                RunEvent::Interrupt => {
                    &&& r.say@ == "\nShutting down...\n"@
                    &&& r.action is ShutDown
                    &&& final(self).phase == (RunPhase::Stopping { died: None })
                },
                RunEvent::SignalFailed(why) => {
                    &&& r.say@ == Seq::<char>::empty()
                    &&& r.action matches RunAction::Exit(Err(e)) && e.says(why@)
                    &&& final(self).phase is Done
                },
                RunEvent::HostDied(i) => {
                    &&& r.say@ == Seq::<char>::empty()
                    &&& r.action is ShutDown
                    &&& final(self).phase == (RunPhase::Stopping { died: Some(i) })
                },
                RunEvent::Down => {
                    &&& r.say@ == Seq::<char>::empty()
                    &&& match old(self).phase {
                        RunPhase::Stopping { died: Some(i) } => r.action matches RunAction::Exit(
                            Err(e),
                        ) && e.says(died_words(old(self).hosts@[i as int].name@)),
                        _ => r.action == RunAction::Exit(Ok(())),
                    }
                    &&& final(self).phase is Done
                },
            },
    {
        match event {
            RunEvent::Begin => {
                if self.hosts.len() == 0 && self.clients.len() == 0 {
                    self.phase = RunPhase::Done;
                    return RunStep {
                        say: String::from_str(
                            "No enabled tunnels. Add one with `lantun add-host` or `lantun add-client`.\n",
                        ),
                        action: RunAction::Exit(Ok(())),
                    };
                }
                self.proceed()
            },
            RunEvent::Started => {
                let line: String = self.up_text();
                if self.hosts_up < self.hosts.len() {
                    self.hosts_up = self.hosts_up + 1;
                } else if self.clients_up < self.clients.len() {
                    self.clients_up = self.clients_up + 1;
                }
                let next: RunStep = self.proceed();
                RunStep { say: line.concat(next.say.as_str()), action: next.action }
            },
            RunEvent::StartFailed(why) => {
                let message: String = if self.hosts_up < self.hosts.len() {
                    String::from_str("failed to start host tunnel ").concat(
                        self.hosts[self.hosts_up].name.as_str(),
                    )
                } else {
                    String::from_str("failed to start client tunnel ").concat(
                        self.clients[self.clients_up].name.as_str(),
                    )
                };
                self.phase = RunPhase::Done;
                RunStep {
                    say: String::new(),
                    action: RunAction::Exit(
                        Err(CliError { message, cause: Some(Cause::Tunnel(why)) }),
                    ),
                }
            },
            RunEvent::Interrupt => {
                self.phase = RunPhase::Stopping { died: None };
                RunStep {
                    say: String::from_str("\nShutting down...\n"),
                    action: RunAction::ShutDown,
                }
            },
            RunEvent::SignalFailed(why) => {
                self.phase = RunPhase::Done;
                RunStep {
                    say: String::new(),
                    action: RunAction::Exit(Err(CliError { message: why, cause: None })),
                }
            },
            RunEvent::HostDied(i) => {
                self.phase = RunPhase::Stopping { died: Some(i) };
                RunStep { say: String::new(), action: RunAction::ShutDown }
            },
            RunEvent::Down => {
                let result: Result<(), CliError> = match self.phase {
                    RunPhase::Stopping { died: Some(i) } => Err(
                        CliError {
                            message: String::from_str("host tunnel \"").concat(
                                self.hosts[i].name.as_str(),
                            ).concat("\" died unexpectedly — exiting..."),
                            cause: None,
                        },
                    ),
                    _ => Ok(()),
                };
                self.phase = RunPhase::Done;
                RunStep { say: String::new(), action: RunAction::Exit(result) }
            },
        }
    }
}

/// Only enabled tunnels are run: whatever is run is configured, and enabled there.
pub proof fn lemma_disabled_is_not_started<T: Named>(configured: Seq<T>, i: int)
    requires
        0 <= i < named::enabled_only(configured).len(),
    ensures
        named::enabled_only(configured)[i].spec_enabled(),
        configured.contains(named::enabled_only(configured)[i]),
{
    named::lemma_filter_keeps(configured, named::switched_on::<T>(), i);
}

/// And every enabled tunnel is run.
pub proof fn lemma_enabled_is_started<T: Named>(configured: Seq<T>, i: int)
    requires
        0 <= i < configured.len(),
        configured[i].spec_enabled(),
    ensures
        named::enabled_only(configured).contains(configured[i]),
{
    broadcast use vstd::seq_lib::group_filter_ensures;

}

} // verus!
