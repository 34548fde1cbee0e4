//! The command line of the engine.

use vstd::prelude::*;

use crate::addr::SocketAddr;
use crate::cli::run;
use crate::cli::run::{place_text, LogSetup};
use crate::cli::LogLevel;
use crate::engine::config::{ClientTunnelEntry, HostTunnelEntry, LanTunConfig};
use crate::engine::LanTun;
use crate::key;
use crate::key::{gen_secret, hex_encode, parse_hex, HexError, SecretKey};
use crate::named;
use crate::named::{position_named, sort_by_name};
use crate::tunnel::TunnelProtocol;

verus! {

/// A subcommand.
#[derive(Debug)]
pub enum Action {
    /// Create a new host tunnel
    CreateHostTunnel { local: SocketAddr, protocol: TunnelProtocol, name: String },
    /// Add the tunnel of a host.
    AddClientTunnel { secret: String, local: SocketAddr, protocol: TunnelProtocol, name: String },
    /// List all tunnels
    ListTunnels,
    /// Remove a tunnel
    RemoveTunnel { name: String },
}

/// What a subcommand leads to.
#[derive(Debug)]
pub enum Outcome {
    /// Start all tunnels.
    Start(LanTunConfig),
    /// Save the configuration and print the text.
    Save { config: LanTunConfig, output: String },
    /// Print the text.
    Print(String),
    /// Log that the local address is taken, and do nothing.
    Taken,
    /// Fail with these words.
    Fail(String),
}

/// How logging is set up: by the level that was asked for, else by the filter in the environment,
/// else by a default.
pub fn log_setup(log_level: Option<LogLevel>, rust_log: Option<String>) -> (r: LogSetup)
    ensures
        match log_level {
            Some(level) => r == LogSetup::Level(level),
            None => r matches LogSetup::Filter(f) && f@ == match rust_log {
                Some(s) => s@,
                None => "lantun_core=info,lantun_cli=info"@,
            },
        },
{
    match log_level {
        Some(level) => LogSetup::Level(level),
        None => match rust_log {
            Some(s) => LogSetup::Filter(s),
            None => LogSetup::Filter(String::from_str("lantun_core=info,lantun_cli=info")),
        },
    }
}

/// Whether a host tunnel forwards this protocol to this address.
pub open spec fn host_at(
    s: Seq<HostTunnelEntry>,
    local: SocketAddr,
    protocol: TunnelProtocol,
) -> bool {
    exists|i: int| 0 <= i < s.len() && (#[trigger] s[i]).local == local && s[i].protocol == protocol
}

/// Whether a client tunnel binds this address for this protocol.
pub open spec fn client_at(
    s: Seq<ClientTunnelEntry>,
    local: SocketAddr,
    protocol: TunnelProtocol,
) -> bool {
    exists|i: int| 0 <= i < s.len() && (#[trigger] s[i]).local == local && s[i].protocol == protocol
}

/// What is printed when a host tunnel has been created.
pub open spec fn host_words(
    local: SocketAddr,
    protocol: TunnelProtocol,
    name: Seq<char>,
    public_secret: Seq<char>,
) -> Seq<char> {
    "Tunnel \""@ + name + "\" with local addr "@ + run::place(local, protocol)
        + " created.\nThe public secret is \""@ + public_secret
        + "\"\n\nTo add a client tunnel on the client side, use:\n  lantun add-client "@
        + public_secret + " "@ + local.display() + " "@ + protocol.display() + " <name>\n"@
}

/// What is printed when a client tunnel has been created.
pub open spec fn client_words(
    local: SocketAddr,
    protocol: TunnelProtocol,
    name: Seq<char>,
) -> Seq<char> {
    "Client tunnel \""@ + name + "\" with local addr "@ + run::place(local, protocol)
        + " created.\n"@
}

/// Whether `e` is a new host tunnel with these properties.
pub open spec fn new_host(
    e: HostTunnelEntry,
    local: SocketAddr,
    protocol: TunnelProtocol,
    name: Seq<char>,
    secret: Seq<u8>,
) -> bool {
    &&& e.name@ == name
    &&& e.local == local
    &&& e.protocol == protocol
    &&& e.private_secret@ == key::hex_text(secret)
    &&& e.public_secret@ == key::hex_text(key::public_key_of(secret))
    &&& e.enabled
}

/// What comes of creating a host tunnel with this secret key.
pub open spec fn host_creation(
    cfg: LanTunConfig,
    local: SocketAddr,
    protocol: TunnelProtocol,
    name: Seq<char>,
    secret: Seq<u8>,
    r: Outcome,
) -> bool {
    if host_at(cfg.host_tunnels@, local, protocol) {
        r is Taken
    } else {
        r matches Outcome::Save { config, output } && config.client_tunnels@
            == cfg.client_tunnels@ && output@ == host_words(
            local,
            protocol,
            name,
            key::hex_text(key::public_key_of(secret)),
        ) && exists|e: HostTunnelEntry|
            new_host(e, local, protocol, name, secret) && config.host_tunnels@ == #[trigger]
                named::sorted_by_name(cfg.host_tunnels@.push(e))
    }
}

/// Creates a host tunnel with the given secret key, unless its address is taken.
pub fn create_host(
    cfg: LanTunConfig,
    local: SocketAddr,
    protocol: TunnelProtocol,
    name: String,
    secret: SecretKey,
) -> (r: Outcome)
    ensures
        host_creation(cfg, local, protocol, name@, secret@, r),
{
    let private_secret: String = hex_encode(&secret.to_bytes());
    let public_secret: String = hex_encode(secret.public().as_bytes());
    let mut i: usize = 0;
    while i < cfg.host_tunnels.len()
        invariant
            i <= cfg.host_tunnels@.len(),
            forall|j: int|
                0 <= j < i ==> !((#[trigger] cfg.host_tunnels@[j]).local == local
                    && cfg.host_tunnels@[j].protocol == protocol),
        decreases cfg.host_tunnels@.len() - i,
    {
        if cfg.host_tunnels[i].local == local && cfg.host_tunnels[i].protocol == protocol {
            assert(host_at(cfg.host_tunnels@, local, protocol));
            return Outcome::Taken;
        }
        i = i + 1;
    }
    let output: String = String::from_str("Tunnel \"").concat(name.as_str()).concat(
        "\" with local addr ",
    ).concat(place_text(local, protocol).as_str()).concat(
        " created.\nThe public secret is \"",
    ).concat(public_secret.as_str()).concat(
        "\"\n\nTo add a client tunnel on the client side, use:\n  lantun add-client ",
    ).concat(public_secret.as_str()).concat(" ").concat(local.to_text().as_str()).concat(
        " ",
    ).concat(protocol.to_text()).concat(" <name>\n");
    let entry: HostTunnelEntry = HostTunnelEntry {
        name,
        local,
        protocol,
        private_secret,
        public_secret,
        enabled: true,
    };
    let ghost e = entry;
    assert(new_host(e, local, protocol, name@, secret@));
    let mut hosts: Vec<HostTunnelEntry> = cfg.host_tunnels;
    hosts.push(entry);
    sort_by_name(&mut hosts);
    assert(hosts@ == named::sorted_by_name(cfg.host_tunnels@.push(e)));
    let config: LanTunConfig = LanTunConfig {
        host_tunnels: hosts,
        client_tunnels: cfg.client_tunnels,
    };
    assert(config.host_tunnels@ == named::sorted_by_name(cfg.host_tunnels@.push(e)));
    Outcome::Save { config, output }
}

/// What comes of adding a client tunnel. Its secret is kept in lower case.
pub open spec fn client_creation(
    cfg: LanTunConfig,
    secret: Seq<char>,
    local: SocketAddr,
    protocol: TunnelProtocol,
    name: Seq<char>,
    r: Outcome,
) -> bool {
    match key::hex_result(secret) {
        Err(_) => r matches Outcome::Fail(m) && m@
            == "Invalid secret format. It should be a hex string."@,
        Ok(bytes) => if client_at(cfg.client_tunnels@, local, protocol) {
            r is Taken
        } else {
            r matches Outcome::Save { config, output } && config.host_tunnels@ == cfg.host_tunnels@
                && output@ == client_words(local, protocol, name) && exists|e: ClientTunnelEntry|
                e.name@ == name && e.local == local && e.protocol == protocol && e.secret@
                    == key::hex_text(bytes) && e.enabled && config.client_tunnels@ == #[trigger]
                    named::sorted_by_name(cfg.client_tunnels@.push(e))
        },
    }
}

/// Adds a client tunnel, unless its secret is not hexadecimal or its address is taken.
pub fn create_client(
    cfg: LanTunConfig,
    secret: String,
    local: SocketAddr,
    protocol: TunnelProtocol,
    name: String,
) -> (r: Outcome)
    ensures
        client_creation(cfg, secret@, local, protocol, name@, r),
{
    let bytes: Vec<u8> = match parse_hex(secret.as_str()) {
        Ok(b) => b,
        Err(_) => {
            return Outcome::Fail(
                String::from_str("Invalid secret format. It should be a hex string."),
            );
        },
    };
    let mut i: usize = 0;
    while i < cfg.client_tunnels.len()
        invariant
            i <= cfg.client_tunnels@.len(),
            key::hex_result(secret@) == Ok::<Seq<u8>, HexError>(bytes@),
            forall|j: int|
                0 <= j < i ==> !((#[trigger] cfg.client_tunnels@[j]).local == local
                    && cfg.client_tunnels@[j].protocol == protocol),
        decreases cfg.client_tunnels@.len() - i,
    {
        if cfg.client_tunnels[i].local == local && cfg.client_tunnels[i].protocol == protocol {
            assert(client_at(cfg.client_tunnels@, local, protocol));
            return Outcome::Taken;
        }
        i = i + 1;
    }
    let output: String = String::from_str("Client tunnel \"").concat(name.as_str()).concat(
        "\" with local addr ",
    ).concat(place_text(local, protocol).as_str()).concat(" created.\n");
    let entry: ClientTunnelEntry = ClientTunnelEntry {
        name,
        local,
        protocol,
        secret: hex_encode(bytes.as_slice()),
        enabled: true,
    };
    let ghost e = entry;
    let mut clients: Vec<ClientTunnelEntry> = cfg.client_tunnels;
    clients.push(entry);
    sort_by_name(&mut clients);
    let config: LanTunConfig = LanTunConfig {
        host_tunnels: cfg.host_tunnels,
        client_tunnels: clients,
    };
    assert(config.client_tunnels@ == named::sorted_by_name(cfg.client_tunnels@.push(e)));
    Outcome::Save { config, output }
}

/// The line of a host tunnel in the list.
pub open spec fn host_line(t: HostTunnelEntry) -> Seq<char> {
    "  "@ + t.name@ + ": "@ + run::place(t.local, t.protocol) + ": "@ + t.public_secret@ + "\n"@
}

/// The line of a client tunnel in the list.
pub open spec fn client_line(t: ClientTunnelEntry) -> Seq<char> {
    "  "@ + t.name@ + ": "@ + t.local.display() + " -> "@ + t.secret@ + "\n"@
}

/// The list of all tunnels.
pub open spec fn list_words(cfg: LanTunConfig) -> Seq<char> {
    "Host Tunnels:\n"@ + run::lines(cfg.host_tunnels@, |t: HostTunnelEntry| host_line(t))
        + "\nClient Tunnels:\n"@ + run::lines(
        cfg.client_tunnels@,
        |t: ClientTunnelEntry| client_line(t),
    )
}

/// The list of all tunnels.
pub fn list(cfg: &LanTunConfig) -> (r: String)
    ensures
        r@ == list_words(*cfg),
{
    let ghost of_host = |t: HostTunnelEntry| host_line(t);
    let ghost of_client = |t: ClientTunnelEntry| client_line(t);
    let mut host_lines: String = String::new();
    let mut i: usize = 0;
    assert(cfg.host_tunnels@.take(0) =~= Seq::<HostTunnelEntry>::empty());
    while i < cfg.host_tunnels.len()
        invariant
            i <= cfg.host_tunnels@.len(),
            of_host == (|t: HostTunnelEntry| host_line(t)),
            host_lines@ == run::lines(cfg.host_tunnels@.take(i as int), of_host),
        decreases cfg.host_tunnels@.len() - i,
    {
        let t: &HostTunnelEntry = &cfg.host_tunnels[i];
        let line: String = String::from_str("  ").concat(t.name.as_str()).concat(": ").concat(
            place_text(t.local, t.protocol).as_str(),
        ).concat(": ").concat(t.public_secret.as_str()).concat("\n");
        host_lines = host_lines.concat(line.as_str());
        proof {
            let next = cfg.host_tunnels@.take(i + 1);
            assert(next.drop_last() =~= cfg.host_tunnels@.take(i as int));
            assert(next.last() == *t);
        }
        i = i + 1;
    }
    assert(cfg.host_tunnels@.take(i as int) =~= cfg.host_tunnels@);
    let mut client_lines: String = String::new();
    let mut k: usize = 0;
    assert(cfg.client_tunnels@.take(0) =~= Seq::<ClientTunnelEntry>::empty());
    while k < cfg.client_tunnels.len()
        invariant
            k <= cfg.client_tunnels@.len(),
            of_client == (|t: ClientTunnelEntry| client_line(t)),
            client_lines@ == run::lines(cfg.client_tunnels@.take(k as int), of_client),
        decreases cfg.client_tunnels@.len() - k,
    {
        let t: &ClientTunnelEntry = &cfg.client_tunnels[k];
        let line: String = String::from_str("  ").concat(t.name.as_str()).concat(": ").concat(
            t.local.to_text().as_str(),
        ).concat(" -> ").concat(t.secret.as_str()).concat("\n");
        client_lines = client_lines.concat(line.as_str());
        proof {
            let next = cfg.client_tunnels@.take(k + 1);
            assert(next.drop_last() =~= cfg.client_tunnels@.take(k as int));
            assert(next.last() == *t);
        }
        k = k + 1;
    }
    assert(cfg.client_tunnels@.take(k as int) =~= cfg.client_tunnels@);
    String::from_str("Host Tunnels:\n").concat(host_lines.as_str()).concat(
        "\nClient Tunnels:\n",
    ).concat(client_lines.as_str())
}

/// What comes of removing a tunnel by name: the first host tunnel of that name goes, or else the
/// first client tunnel.
pub open spec fn removal(cfg: LanTunConfig, name: Seq<char>, r: Outcome) -> bool {
    if named::has_name(cfg.host_tunnels@, name) {
        r matches Outcome::Save { config, output } && config.client_tunnels@ == cfg.client_tunnels@
            && output@ == "Removed host tunnel \""@ + name + "\"\n"@ && exists|i: int| #[trigger]
            named::first_named(cfg.host_tunnels@, name, i) && config.host_tunnels@
                == cfg.host_tunnels@.remove(i)
    } else if named::has_name(cfg.client_tunnels@, name) {
        r matches Outcome::Save { config, output } && config.host_tunnels@ == cfg.host_tunnels@
            && output@ == "Removed client tunnel \""@ + name + "\"\n"@ && exists|i: int| #[trigger]
            named::first_named(cfg.client_tunnels@, name, i) && config.client_tunnels@
                == cfg.client_tunnels@.remove(i)
    } else {
        r matches Outcome::Print(output) && output@ == "Tunnel \""@ + name + "\" not found\n"@
    }
}

/// Removes a tunnel by name.
pub fn remove(cfg: LanTunConfig, name: &str) -> (r: Outcome)
    ensures
        removal(cfg, name@, r),
{
    let mut hosts: Vec<HostTunnelEntry> = cfg.host_tunnels;
    let mut clients: Vec<ClientTunnelEntry> = cfg.client_tunnels;
    if let Some(at) = position_named(&hosts, name) {
        let _gone: HostTunnelEntry = hosts.remove(at);
        let config: LanTunConfig = LanTunConfig { host_tunnels: hosts, client_tunnels: clients };
        assert(named::first_named(cfg.host_tunnels@, name@, at as int));
        let output: String = String::from_str("Removed host tunnel \"").concat(name).concat("\"\n");
        return Outcome::Save { config, output };
    }
    if let Some(at) = position_named(&clients, name) {
        let _gone: ClientTunnelEntry = clients.remove(at);
        let config: LanTunConfig = LanTunConfig { host_tunnels: hosts, client_tunnels: clients };
        assert(named::first_named(cfg.client_tunnels@, name@, at as int));
        let output: String = String::from_str("Removed client tunnel \"").concat(name).concat(
            "\"\n",
        );
        return Outcome::Save { config, output };
    }
    Outcome::Print(String::from_str("Tunnel \"").concat(name).concat("\" not found\n"))
}

/// Does what a subcommand asks for; without one, all tunnels are started.
pub fn run_action(action: Option<Action>, cfg: LanTunConfig) -> (r: Outcome)
    ensures
        match action {
            None => if cfg.host_tunnels@.len() == 0 && cfg.client_tunnels@.len() == 0 {
                r matches Outcome::Print(output) && output@
                    == "No tunnels found. Use `lantun add-host` or `lantun add-client` to create a tunnel.\n"@
            } else {
                r == Outcome::Start(cfg)
            },
            Some(Action::CreateHostTunnel { local, protocol, name }) => exists|secret: SecretKey|
                #[trigger] host_creation(cfg, local, protocol, name@, secret@, r),
            Some(Action::AddClientTunnel { secret, local, protocol, name }) => client_creation(
                cfg,
                secret@,
                local,
                protocol,
                name@,
                r,
            ),
            Some(Action::ListTunnels) => r matches Outcome::Print(output) && output@ == list_words(
                cfg,
            ),
            Some(Action::RemoveTunnel { name }) => removal(cfg, name@, r),
        },
{
    match action {
        None => {
            if cfg.host_tunnels.len() == 0 && cfg.client_tunnels.len() == 0 {
                return Outcome::Print(
                    String::from_str(
                        "No tunnels found. Use `lantun add-host` or `lantun add-client` to create a tunnel.\n",
                    ),
                );
            }
            Outcome::Start(cfg)
        },
        Some(Action::CreateHostTunnel { local, protocol, name }) => {
            let secret: SecretKey = gen_secret();
            let r: Outcome = create_host(cfg, local, protocol, name, secret);
            assert(host_creation(cfg, local, protocol, name@, secret@, r));
            r
        },
        Some(Action::AddClientTunnel { secret, local, protocol, name }) => create_client(
            cfg,
            secret,
            local,
            protocol,
            name,
        ),
        Some(Action::ListTunnels) => Outcome::Print(list(&cfg)),
        Some(Action::RemoveTunnel { name }) => remove(cfg, name.as_str()),
    }
}

/// The text interface: what it shows of the tunnels.
#[derive(Debug)]
pub struct TuiApp {
    pub lantun: LanTun,
    pub exit: bool,
    pub selected_tunnel: usize,
    pub num_host_tunnels: usize,
    pub num_client_tunnels: usize,
}

impl TuiApp {
    /// The interface to some tunnels, with the first one selected.
    pub fn new(lantun: LanTun) -> (r: Self)
        requires
            lantun.wf(),
        ensures
            r.lantun == lantun,
            !r.exit,
            r.selected_tunnel == 0,
            r.num_host_tunnels == lantun.host.tunnels@.dom().len(),
            r.num_client_tunnels == lantun.client.tunnels@.dom().len(),
    {
        let num_host_tunnels: usize = lantun.host.tunnels().len();
        let num_client_tunnels: usize = lantun.client.tunnels().len();
        TuiApp { lantun, exit: false, selected_tunnel: 0, num_host_tunnels, num_client_tunnels }
    }
}

} // verus!
