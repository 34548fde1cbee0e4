//! The subcommands, and running all tunnels.

use vstd::prelude::*;

use crate::addr::SocketAddr;
use crate::cli::config;
use crate::cli::config::{ClientEntry, Config, HostEntry};
use crate::cli::{Action, Args, LogLevel};
use crate::duration::Duration;
use crate::error::Error;
use crate::key;
use crate::key::{array32, gen_secret, hex_encode, parse_hex, HexError, PublicKey, SecretKey};
use crate::named;
use crate::named::{drop_named, sort_by_name, switch_named, Named};
use crate::text;
use crate::text::decimal_text;
use crate::tunnel::client::ReconnectPolicy;
use crate::tunnel::TunnelProtocol;

verus! {

/// What lies behind a failure of the program.
#[derive(Debug)]
pub enum Cause {
    Hex(HexError),
    Tunnel(Error),
}

/// A failure of the program.
#[derive(Debug)]
pub struct CliError {
    pub message: String,
    pub cause: Option<Cause>,
}

impl CliError {
    /// Whether the failure is described in these words, with nothing behind it.
    pub open spec fn says(self, words: Seq<char>) -> bool {
        self.message@ == words && self.cause is None
    }

    fn new(message: String) -> (r: Self)
        ensures
            r.says(message@),
    {
        CliError { message, cause: None }
    }
}

/// Where the tunnels are configured.
#[derive(Debug, Clone, Copy, PartialEq, Eq, Structural)]
pub enum ConfigSource {
    /// In the config file, which is created if it does not exist.
    File,
    /// On the command line; the config file is neither read nor created.
    Inline,
}

/// Where the tunnels are configured. Inline tunnels and subcommands exclude each other.
pub fn config_source(args: &Args) -> (r: Result<ConfigSource, CliError>)
    ensures
        match r {
            Ok(ConfigSource::File) => args.host_tunnels is None && args.client_tunnels is None,
            Ok(ConfigSource::Inline) => (args.host_tunnels is Some || args.client_tunnels is Some)
                && args.action is None,
            Err(e) => (args.host_tunnels is Some || args.client_tunnels is Some)
                && args.action is Some && e.says(
                "--host-tunnels and --client-tunnels cannot be combined with a subcommand"@,
            ),
        },
{
    if args.host_tunnels.is_none() && args.client_tunnels.is_none() {
        return Ok(ConfigSource::File);
    }
    if args.action.is_some() {
        return Err(
            CliError::new(
                String::from_str(
                    "--host-tunnels and --client-tunnels cannot be combined with a subcommand",
                ),
            ),
        );
    }
    Ok(ConfigSource::Inline)
}

/// How logging is set up.
#[derive(Debug)]
pub enum LogSetup {
    /// Everything up to a level, with the place it comes from.
    Level(LogLevel),
    /// What a filter lets through, without place and time.
    Filter(String),
}

/// How logging is set up: by the level that was asked for, else by the filter in the environment,
/// else by a default.
pub fn init_tracing(log_level: Option<LogLevel>, rust_log: Option<String>) -> (r: LogSetup)
    ensures
        match log_level {
            Some(level) => r == LogSetup::Level(level),
            None => r matches LogSetup::Filter(f) && f@ == match rust_log {
                Some(s) => s@,
                None => "lantun=info"@,
            },
        },
{
    match log_level {
        Some(level) => LogSetup::Level(level),
        None => match rust_log {
            Some(s) => LogSetup::Filter(s),
            None => LogSetup::Filter(String::from_str("lantun=info")),
        },
    }
}

/// What a subcommand leads to.
#[derive(Debug)]
pub enum Outcome {
    /// Run all tunnels.
    RunAll(Config),
    /// Save the configuration, then print the text.
    Save { config: Config, output: String },
    /// Print the text.
    Print(String),
}

/// `local/protocol`.
pub open spec fn place(local: SocketAddr, protocol: TunnelProtocol) -> Seq<char> {
    local.display() + "/"@ + protocol.display()
}

pub(crate) fn place_text(local: SocketAddr, protocol: TunnelProtocol) -> (r: String)
    ensures
        r@ == place(local, protocol),
{
    local.to_text().concat("/").concat(protocol.to_text())
}

/// The words for a name that is in use.
pub open spec fn taken_words(name: Seq<char>) -> Seq<char> {
    "tunnel name \""@ + name + "\" is already taken"@
}

/// The words for a name that is not in use.
pub open spec fn missing_words(name: Seq<char>) -> Seq<char> {
    "no tunnel named \""@ + name + "\""@
}

fn missing(name: &str) -> (r: CliError)
    ensures
        r.says(missing_words(name@)),
{
    CliError::new(String::from_str("no tunnel named \"").concat(name).concat("\""))
}

fn taken(name: &str) -> (r: CliError)
    ensures
        r.says(taken_words(name@)),
{
    CliError::new(String::from_str("tunnel name \"").concat(name).concat("\" is already taken"))
}

/// Whether a host tunnel forwards this protocol to this address.
pub open spec fn host_at(s: Seq<HostEntry>, local: SocketAddr, protocol: TunnelProtocol) -> bool {
    exists|i: int| 0 <= i < s.len() && (#[trigger] s[i]).local == local && s[i].protocol == protocol
}

/// Whether a client tunnel binds this address for this protocol.
pub open spec fn client_at(
    s: Seq<ClientEntry>,
    local: SocketAddr,
    protocol: TunnelProtocol,
) -> bool {
    exists|i: int| 0 <= i < s.len() && (#[trigger] s[i]).local == local && s[i].protocol == protocol
}

/// Why a host tunnel cannot be added, if so: its name or its address is in use.
pub fn host_refused(cfg: &Config, local: SocketAddr, protocol: TunnelProtocol, name: &str) -> (r:
    Option<CliError>)
    ensures
        if cfg.has_name(name@) {
            r matches Some(e) && e.says(taken_words(name@))
        } else if host_at(cfg.host_tunnels@, local, protocol) {
            r matches Some(e) && e.says(
                "host tunnel "@ + place(local, protocol) + " already exists"@,
            )
        } else {
            r is None
        },
        r is None <==> {
            &&& !exists|i: int|
                0 <= i < cfg.host_tunnels@.len() && (#[trigger] cfg.host_tunnels@[i]).name@ == name@
            &&& !exists|i: int|
                0 <= i < cfg.client_tunnels@.len() && (#[trigger] cfg.client_tunnels@[i]).name@
                    == name@
            &&& !exists|i: int|
                0 <= i < cfg.host_tunnels@.len() && (#[trigger] cfg.host_tunnels@[i]).local == local
                    && cfg.host_tunnels@[i].protocol == protocol
        },
{
    proof {
        cfg.lemma_has_name(name@);
    }
    if cfg.name_taken(name) {
        return Some(taken(name));
    }
    let mut i: usize = 0;
    while i < cfg.host_tunnels.len()
        invariant
            i <= cfg.host_tunnels@.len(),
            !cfg.has_name(name@),
            forall|j: int|
                0 <= j < i ==> !((#[trigger] cfg.host_tunnels@[j]).local == local
                    && cfg.host_tunnels@[j].protocol == protocol),
        decreases cfg.host_tunnels@.len() - i,
    {
        if cfg.host_tunnels[i].local == local && cfg.host_tunnels[i].protocol == protocol {
            assert(host_at(cfg.host_tunnels@, local, protocol));
            return Some(
                CliError::new(
                    String::from_str("host tunnel ").concat(
                        place_text(local, protocol).as_str(),
                    ).concat(" already exists"),
                ),
            );
        }
        i = i + 1;
    }
    None
}

/// Whether `entry` is a new, enabled host tunnel with these properties.
pub open spec fn new_host(
    entry: HostEntry,
    local: SocketAddr,
    protocol: TunnelProtocol,
    name: Seq<char>,
    secret: Seq<u8>,
) -> bool {
    &&& entry.name@ == name
    &&& entry.local == local
    &&& entry.protocol == protocol
    &&& entry.secret_key@ == key::hex_text(secret)
    &&& entry.enabled
}

/// What is printed when a host tunnel has been created.
pub open spec fn host_created_words(
    local: SocketAddr,
    protocol: TunnelProtocol,
    name: Seq<char>,
    public_key: Seq<char>,
) -> Seq<char> {
    "Created host tunnel \""@ + name + "\" on "@ + place(local, protocol) + "\nPublic key: "@
        + public_key + "\nPeers can connect with:\n  lantun add-client "@ + public_key
        + " <local> "@ + protocol.display() + " <name>\n"@
}

/// Whether `new` is the configuration `old` with a host tunnel added in its place by name, and
/// `output` tells the user.
pub open spec fn host_is_added(
    old_cfg: Config,
    local: SocketAddr,
    protocol: TunnelProtocol,
    name: Seq<char>,
    secret: Seq<u8>,
    new: Config,
    output: Seq<char>,
) -> bool {
    &&& new.client_tunnels@ == old_cfg.client_tunnels@
    &&& exists|e: HostEntry|
        new_host(e, local, protocol, name, secret) && new.host_tunnels@ == #[trigger]
            named::sorted_by_name(old_cfg.host_tunnels@.push(e))
    &&& output == host_created_words(
        local,
        protocol,
        name,
        key::hex_text(key::public_key_of(secret)),
    )
}

/// Adds a host tunnel with the given secret key.
pub fn host_added(
    cfg: Config,
    local: SocketAddr,
    protocol: TunnelProtocol,
    name: String,
    secret: SecretKey,
) -> (r: (Config, String))
    ensures
        host_is_added(cfg, local, protocol, name@, secret@, r.0, r.1@),
        r.0.client_tunnels@ == cfg.client_tunnels@,
        exists|e: HostEntry| #[trigger]
            r.0.host_tunnels@.contains(e) && e.name@ == name@ && e.local == local && e.protocol
                == protocol && key::hex_result(e.secret_key@) == Ok::<Seq<u8>, HexError>(secret@)
                && e.enabled && r.0.host_tunnels@.to_multiset()
                == cfg.host_tunnels@.to_multiset().insert(e),
        r.1@ == "Created host tunnel \""@ + name@ + "\" on "@ + local.display() + "/"@ + (
        match protocol {
            TunnelProtocol::Tcp => "tcp"@,
            TunnelProtocol::Udp => "udp"@,
        }) + "\nPublic key: "@ + key::hex_text(key::public_key_of(secret@))
            + "\nPeers can connect with:\n  lantun add-client "@ + key::hex_text(
            key::public_key_of(secret@),
        ) + " <local> "@ + (match protocol {
            TunnelProtocol::Tcp => "tcp"@,
            TunnelProtocol::Udp => "udp"@,
        }) + " <name>\n"@,
{
    let public_key: String = hex_encode(secret.public().as_bytes());
    let output: String = String::from_str("Created host tunnel \"").concat(name.as_str()).concat(
        "\" on ",
    ).concat(place_text(local, protocol).as_str()).concat("\nPublic key: ").concat(
        public_key.as_str(),
    ).concat("\nPeers can connect with:\n  lantun add-client ").concat(
        public_key.as_str(),
    ).concat(" <local> ").concat(protocol.to_text()).concat(" <name>\n");
    let entry: HostEntry = HostEntry {
        name,
        local,
        protocol,
        secret_key: hex_encode(&secret.to_bytes()),
        enabled: true,
    };
    assert(new_host(entry, local, protocol, name@, secret@));
    let ghost e = entry;
    let mut hosts: Vec<HostEntry> = cfg.host_tunnels;
    hosts.push(entry);
    sort_by_name(&mut hosts);
    assert(hosts@ == named::sorted_by_name(cfg.host_tunnels@.push(e)));
    proof {
        lemma_added_in_order(cfg.host_tunnels@, e);
        key::lemma_hex_roundtrip(secret@);
        broadcast use vstd::seq_lib::group_to_multiset_ensures;

        assert(hosts@.to_multiset().count(e) > 0);
        assert(hosts@.contains(e));
    }
    (Config { host_tunnels: hosts, client_tunnels: cfg.client_tunnels }, output)
}

/// What is printed when a client tunnel has been created.
pub open spec fn client_created_words(
    local: SocketAddr,
    protocol: TunnelProtocol,
    name: Seq<char>,
) -> Seq<char> {
    "Created client tunnel \""@ + name + "\" on "@ + place(local, protocol) + "\n"@
}

/// Whether `new` is the configuration `old` with a client tunnel added in its place by name.
pub open spec fn client_is_added(
    old_cfg: Config,
    host_key: Seq<char>,
    local: SocketAddr,
    protocol: TunnelProtocol,
    name: Seq<char>,
    new: Config,
) -> bool {
    &&& new.host_tunnels@ == old_cfg.host_tunnels@
    &&& exists|e: ClientEntry|
        e.name@ == name && e.local == local && e.protocol == protocol && e.host_key@ == host_key
            && e.enabled && new.client_tunnels@ == #[trigger] named::sorted_by_name(
            old_cfg.client_tunnels@.push(e),
        )
}

/// What comes of adding a client tunnel: a failure if its name or its address is in use or its key
/// has not the form of one.
pub open spec fn client_addition(
    cfg: Config,
    host_key: Seq<char>,
    local: SocketAddr,
    protocol: TunnelProtocol,
    name: Seq<char>,
    r: Result<(Config, String), CliError>,
) -> bool {
    if cfg.has_name(name) {
        r matches Err(e) && e.says(taken_words(name))
    } else {
        match key::hex_result(host_key) {
            Err(why) => r matches Err(e) && e.message@ == "host key is not valid hex"@ && e.cause
                == Some(Cause::Hex(why)),
            Ok(bytes) => if bytes.len() != 32 {
                r matches Err(e) && e.says(
                    "host key must be 32 bytes (64 hex chars), got "@ + text::decimal(bytes.len()),
                )
            } else if client_at(cfg.client_tunnels@, local, protocol) {
                r matches Err(e) && e.says(
                    "client tunnel "@ + place(local, protocol) + " already exists"@,
                )
            } else {
                r matches Ok((new, output)) && client_is_added(
                    cfg,
                    host_key,
                    local,
                    protocol,
                    name,
                    new,
                ) && output@ == client_created_words(local, protocol, name)
            },
        }
    }
}

/// Adds a client tunnel, unless its name or its address is in use or its key has not the form of
/// one.
pub fn add_client(
    cfg: Config,
    host_key: String,
    local: SocketAddr,
    protocol: TunnelProtocol,
    name: String,
) -> (r: Result<(Config, String), CliError>)
    ensures
        client_addition(cfg, host_key@, local, protocol, name@, r),
        r is Ok <==> {
            &&& !exists|i: int|
                0 <= i < cfg.host_tunnels@.len() && (#[trigger] cfg.host_tunnels@[i]).name@ == name@
            &&& !exists|i: int|
                0 <= i < cfg.client_tunnels@.len() && (#[trigger] cfg.client_tunnels@[i]).name@
                    == name@
            &&& key::hex_result(host_key@) matches Ok(bytes) && bytes.len() == 32
            &&& !exists|i: int|
                0 <= i < cfg.client_tunnels@.len() && (#[trigger] cfg.client_tunnels@[i]).local
                    == local && cfg.client_tunnels@[i].protocol == protocol
        },
        r matches Ok((new, output)) ==> {
            &&& new.host_tunnels@ == cfg.host_tunnels@
            &&& exists|i: int|
                0 <= i < new.client_tunnels@.len() && (#[trigger] new.client_tunnels@[i])
                    == (ClientEntry { name, local, protocol, host_key, enabled: true })
            &&& new.client_tunnels@.to_multiset() == cfg.client_tunnels@.to_multiset().insert(
                ClientEntry { name, local, protocol, host_key, enabled: true },
            )
        },
{
    proof {
        cfg.lemma_has_name(name@);
    }
    if cfg.name_taken(name.as_str()) {
        return Err(taken(name.as_str()));
    }
    let bytes: Vec<u8> = match parse_hex(host_key.as_str()) {
        Ok(b) => b,
        Err(why) => {
            return Err(
                CliError {
                    message: String::from_str("host key is not valid hex"),
                    cause: Some(Cause::Hex(why)),
                },
            );
        },
    };
    if bytes.len() != 32 {
        return Err(
            CliError::new(
                String::from_str("host key must be 32 bytes (64 hex chars), got ").concat(
                    decimal_text(bytes.len() as u64).as_str(),
                ),
            ),
        );
    }
    let mut i: usize = 0;
    while i < cfg.client_tunnels.len()
        invariant
            i <= cfg.client_tunnels@.len(),
            !cfg.has_name(name@),
            key::hex_result(host_key@) == Ok::<Seq<u8>, HexError>(bytes@),
            bytes@.len() == 32,
            forall|j: int|
                0 <= j < i ==> !((#[trigger] cfg.client_tunnels@[j]).local == local
                    && cfg.client_tunnels@[j].protocol == protocol),
        decreases cfg.client_tunnels@.len() - i,
    {
        if cfg.client_tunnels[i].local == local && cfg.client_tunnels[i].protocol == protocol {
            assert(client_at(cfg.client_tunnels@, local, protocol));
            return Err(
                CliError::new(
                    String::from_str("client tunnel ").concat(
                        place_text(local, protocol).as_str(),
                    ).concat(" already exists"),
                ),
            );
        }
        i = i + 1;
    }
    let output: String = String::from_str("Created client tunnel \"").concat(
        name.as_str(),
    ).concat("\" on ").concat(place_text(local, protocol).as_str()).concat("\n");
    let entry: ClientEntry = ClientEntry { name, local, protocol, host_key, enabled: true };
    let ghost e = entry;
    let mut clients: Vec<ClientEntry> = cfg.client_tunnels;
    clients.push(entry);
    sort_by_name(&mut clients);
    assert(clients@ == named::sorted_by_name(cfg.client_tunnels@.push(e)));
    proof {
        lemma_added_in_order(cfg.client_tunnels@, e);
        broadcast use vstd::seq_lib::group_to_multiset_ensures;

        assert(clients@.to_multiset().count(e) > 0);
        assert(clients@.contains(e));
    }
    Ok((Config { host_tunnels: cfg.host_tunnels, client_tunnels: clients }, output))
}

/// Removes every tunnel of a name.
pub fn remove(cfg: Config, name: &str) -> (r: Result<(Config, String), CliError>)
    ensures
        r is Ok <==> cfg.has_name(name@),
        r matches Ok((new, output)) ==> {
            &&& new.host_tunnels@ == named::without_name(cfg.host_tunnels@, name@)
            &&& new.client_tunnels@ == named::without_name(cfg.client_tunnels@, name@)
            &&& output@ == "Removed \""@ + name@ + "\"\n"@
        },
        r matches Err(e) ==> e.says(missing_words(name@)),
{
    if !cfg.name_taken(name) {
        return Err(missing(name));
    }
    let mut hosts: Vec<HostEntry> = cfg.host_tunnels;
    let mut clients: Vec<ClientEntry> = cfg.client_tunnels;
    drop_named(&mut hosts, name);
    drop_named(&mut clients, name);
    Ok(
        (
            Config { host_tunnels: hosts, client_tunnels: clients },
            String::from_str("Removed \"").concat(name).concat("\"\n"),
        ),
    )
}

/// Enables or disables every tunnel of a name.
pub fn set_enabled(cfg: Config, name: &str, enabled: bool) -> (r: Result<
    (Config, String),
    CliError,
>)
    ensures
        r is Ok <==> cfg.has_name(name@),
        r matches Ok((new, output)) ==> {
            &&& new.host_tunnels@ == named::with_enabled(cfg.host_tunnels@, name@, enabled)
            &&& new.client_tunnels@ == named::with_enabled(cfg.client_tunnels@, name@, enabled)
            &&& output@ == name@ + ": "@ + (if enabled {
                "enabled"@
            } else {
                "disabled"@
            }) + "\n"@
        },
        r matches Err(e) ==> e.says(missing_words(name@)),
{
    let mut hosts: Vec<HostEntry> = cfg.host_tunnels;
    let mut clients: Vec<ClientEntry> = cfg.client_tunnels;
    let in_hosts: bool = switch_named(&mut hosts, name, enabled);
    let in_clients: bool = switch_named(&mut clients, name, enabled);
    if !in_hosts && !in_clients {
        return Err(missing(name));
    }
    let word: &str = if enabled {
        "enabled"
    } else {
        "disabled"
    };
    Ok(
        (
            Config { host_tunnels: hosts, client_tunnels: clients },
            String::from_str(name).concat(": ").concat(word).concat("\n"),
        ),
    )
}

/// The mark of a tunnel in the list.
pub open spec fn flag(enabled: bool) -> Seq<char> {
    if enabled {
        " "@
    } else {
        "d"@
    }
}

/// The line of a host tunnel in the list.
pub open spec fn host_line(t: HostEntry) -> Seq<char> {
    "  ["@ + flag(t.enabled) + "] "@ + t.name@ + ": "@ + t.local.display() + " ("@
        + t.protocol.display() + ") key="@ + t.spec_public_key_hex() + "\n"@
}

/// The line of a client tunnel in the list.
pub open spec fn client_line(t: ClientEntry) -> Seq<char> {
    "  ["@ + flag(t.enabled) + "] "@ + t.name@ + ": "@ + t.local.display() + " ("@
        + t.protocol.display() + ") -> "@ + t.host_key@ + "\n"@
}

/// The lines of all of `s`, one after the other.
pub open spec fn lines<T>(s: Seq<T>, line: spec_fn(T) -> Seq<char>) -> Seq<char>
    decreases s.len(),
{
    if s.len() == 0 {
        seq![]
    } else {
        lines(s.drop_last(), line) + line(s.last())
    }
}

/// A section of the list: its heading, then its lines, or a note that there are none.
pub open spec fn section<T>(heading: Seq<char>, s: Seq<T>, line: spec_fn(T) -> Seq<char>) -> Seq<
    char,
> {
    if s.len() == 0 {
        heading + "  (none)\n"@
    } else {
        heading + lines(s, line)
    }
}

/// The list of all tunnels.
pub open spec fn list_words(cfg: Config) -> Seq<char> {
    section("Host tunnels:\n"@, cfg.host_tunnels@, |t: HostEntry| host_line(t)) + section(
        "\nClient tunnels:\n"@,
        cfg.client_tunnels@,
        |t: ClientEntry| client_line(t),
    )
}

fn entry_text(
    enabled: bool,
    name: &str,
    local: SocketAddr,
    protocol: TunnelProtocol,
    arrow: &str,
    key: &str,
) -> (r: String)
    ensures
        r@ == "  ["@ + flag(enabled) + "] "@ + name@ + ": "@ + local.display() + " ("@
            + protocol.display() + arrow@ + key@ + "\n"@,
{
    let mark: &str = if enabled {
        " "
    } else {
        "d"
    };
    String::from_str("  [").concat(mark).concat("] ").concat(name).concat(": ").concat(
        local.to_text().as_str(),
    ).concat(" (").concat(protocol.to_text()).concat(arrow).concat(key).concat("\n")
}

/// The list of all tunnels.
pub fn list(cfg: &Config) -> (r: String)
    ensures
        r@ == list_words(*cfg),
{
    let ghost of_host = |t: HostEntry| host_line(t);
    let ghost of_client = |t: ClientEntry| client_line(t);
    let mut host_lines: String = String::new();
    let mut i: usize = 0;
    assert(cfg.host_tunnels@.take(0) =~= Seq::<HostEntry>::empty());
    while i < cfg.host_tunnels.len()
        invariant
            i <= cfg.host_tunnels@.len(),
            of_host == (|t: HostEntry| host_line(t)),
            host_lines@ == lines(cfg.host_tunnels@.take(i as int), of_host),
        decreases cfg.host_tunnels@.len() - i,
    {
        let t: &HostEntry = &cfg.host_tunnels[i];
        let line: String = entry_text(
            t.enabled,
            t.name.as_str(),
            t.local,
            t.protocol,
            ") key=",
            t.public_key_hex().as_str(),
        );
        host_lines = host_lines.concat(line.as_str());
        proof {
            let next = cfg.host_tunnels@.take(i + 1);
            assert(next.drop_last() =~= cfg.host_tunnels@.take(i as int));
            assert(next.last() == *t);
        }
        i = i + 1;
    }
    assert(cfg.host_tunnels@.take(i as int) =~= cfg.host_tunnels@);
    let mut client_lines: String = String::new();
    let mut k: usize = 0;
    assert(cfg.client_tunnels@.take(0) =~= Seq::<ClientEntry>::empty());
    while k < cfg.client_tunnels.len()
        invariant
            k <= cfg.client_tunnels@.len(),
            of_client == (|t: ClientEntry| client_line(t)),
            client_lines@ == lines(cfg.client_tunnels@.take(k as int), of_client),
        decreases cfg.client_tunnels@.len() - k,
    {
        let t: &ClientEntry = &cfg.client_tunnels[k];
        let line: String = entry_text(
            t.enabled,
            t.name.as_str(),
            t.local,
            t.protocol,
            ") -> ",
            t.host_key.as_str(),
        );
        client_lines = client_lines.concat(line.as_str());
        proof {
            let next = cfg.client_tunnels@.take(k + 1);
            assert(next.drop_last() =~= cfg.client_tunnels@.take(k as int));
            assert(next.last() == *t);
        }
        k = k + 1;
    }
    assert(cfg.client_tunnels@.take(k as int) =~= cfg.client_tunnels@);
    let hosts: String = String::from_str("Host tunnels:\n").concat(
        if cfg.host_tunnels.len() == 0 {
            "  (none)\n"
        } else {
            host_lines.as_str()
        },
    );
    let clients: String = String::from_str("\nClient tunnels:\n").concat(
        if cfg.client_tunnels.len() == 0 {
            "  (none)\n"
        } else {
            client_lines.as_str()
        },
    );
    hosts.concat(clients.as_str())
}

/// What comes of adding a host tunnel: a failure if its name or its address is in use; else it is
/// added with some secret key.
pub open spec fn host_addition(
    cfg: Config,
    local: SocketAddr,
    protocol: TunnelProtocol,
    name: Seq<char>,
    r: Result<Outcome, CliError>,
) -> bool {
    if cfg.has_name(name) {
        r matches Err(e) && e.says(taken_words(name))
    } else if host_at(cfg.host_tunnels@, local, protocol) {
        r matches Err(e) && e.says("host tunnel "@ + place(local, protocol) + " already exists"@)
    } else {
        r matches Ok(Outcome::Save { config, output }) && exists|secret: SecretKey| #[trigger]
            host_is_added(cfg, local, protocol, name, secret@, config, output@)
    }
}

/// Does what a subcommand asks for; without one, all tunnels are run.
pub fn run(action: Option<Action>, cfg: Config) -> (r: Result<Outcome, CliError>)
    ensures
        match action {
            None => r == Ok::<Outcome, CliError>(Outcome::RunAll(cfg)),
            Some(Action::AddHost { local, protocol, name }) => host_addition(
                cfg,
                local,
                protocol,
                name@,
                r,
            ),
            Some(Action::AddClient { host_key, local, protocol, name }) => match r {
                Ok(Outcome::Save { config, output }) => client_addition(
                    cfg,
                    host_key@,
                    local,
                    protocol,
                    name@,
                    Ok((config, output)),
                ),
                Ok(_) => false,
                Err(e) => client_addition(cfg, host_key@, local, protocol, name@, Err(e)),
            },
            Some(Action::List) => r matches Ok(Outcome::Print(output)) && output@ == list_words(
                cfg,
            ),
            Some(Action::Remove { name }) => if cfg.has_name(name@) {
                r matches Ok(Outcome::Save { config, output }) && config.host_tunnels@
                    == named::without_name(cfg.host_tunnels@, name@) && config.client_tunnels@
                    == named::without_name(cfg.client_tunnels@, name@) && output@ == "Removed \""@
                    + name@ + "\"\n"@
            } else {
                r matches Err(e) && e.says(missing_words(name@))
            },
            Some(Action::Enable { name }) => switched(cfg, name@, true, r),
            Some(Action::Disable { name }) => switched(cfg, name@, false, r),
        },
{
    match action {
        None => Ok(Outcome::RunAll(cfg)),
        Some(Action::AddHost { local, protocol, name }) => {
            if let Some(e) = host_refused(&cfg, local, protocol, name.as_str()) {
                return Err(e);
            }
            let secret: SecretKey = gen_secret();
            let (config, output): (Config, String) = host_added(
                cfg,
                local,
                protocol,
                name,
                secret,
            );
            let r: Result<Outcome, CliError> = Ok(Outcome::Save { config, output });
            assert(r matches Ok(Outcome::Save { config: c, output: o }) && host_is_added(
                cfg,
                local,
                protocol,
                name@,
                secret@,
                c,
                o@,
            ));
            r
        },
        Some(Action::AddClient { host_key, local, protocol, name }) => {
            saving(add_client(cfg, host_key, local, protocol, name))
        },
        Some(Action::List) => Ok(Outcome::Print(list(&cfg))),
        Some(Action::Remove { name }) => saving(remove(cfg, name.as_str())),
        Some(Action::Enable { name }) => saving(set_enabled(cfg, name.as_str(), true)),
        Some(Action::Disable { name }) => saving(set_enabled(cfg, name.as_str(), false)),
    }
}

/// Whether `r` is what comes of switching a tunnel on or off.
pub open spec fn switched(
    cfg: Config,
    name: Seq<char>,
    on: bool,
    r: Result<Outcome, CliError>,
) -> bool {
    if cfg.has_name(name) {
        r matches Ok(Outcome::Save { config, output }) && config.host_tunnels@
            == named::with_enabled(cfg.host_tunnels@, name, on) && config.client_tunnels@
            == named::with_enabled(cfg.client_tunnels@, name, on) && output@ == name + ": "@ + (
        if on {
            "enabled"@
        } else {
            "disabled"@
        }) + "\n"@
    } else {
        r matches Err(e) && e.says(missing_words(name))
    }
}

fn saving(r: Result<(Config, String), CliError>) -> (o: Result<Outcome, CliError>)
    ensures
        match r {
            Ok((config, output)) => o == Ok::<Outcome, CliError>(Outcome::Save { config, output }),
            Err(e) => o == Err::<Outcome, CliError>(e),
        },
{
    match r {
        Ok((config, output)) => Ok(Outcome::Save { config, output }),
        Err(e) => Err(e),
    }
}

/// The secret key that a text in hexadecimal holds.
pub fn decode_secret_key(hex_str: &str) -> (r: Result<SecretKey, CliError>)
    ensures
        match key::hex_result(hex_str@) {
            Err(why) => r matches Err(e) && e.message@ == "secret_key is not valid hex"@ && e.cause
                == Some(Cause::Hex(why)),
            Ok(bytes) => if bytes.len() == 32 {
                r matches Ok(k) && k@ == bytes
            } else {
                r matches Err(e) && e.says("secret_key must be 32 bytes"@)
            },
        },
{
    let bytes: Vec<u8> = match parse_hex(hex_str) {
        Ok(b) => b,
        Err(why) => {
            return Err(
                CliError {
                    message: String::from_str("secret_key is not valid hex"),
                    cause: Some(Cause::Hex(why)),
                },
            );
        },
    };
    match array32(bytes.as_slice()) {
        Some(arr) => Ok(SecretKey::from_bytes(&arr)),
        None => Err(CliError::new(String::from_str("secret_key must be 32 bytes"))),
    }
}

/// The public key that a text in hexadecimal holds. No text makes this panic.
pub fn decode_public_key(hex_str: &str) -> (r: Result<PublicKey, CliError>)
    ensures
        match key::hex_result(hex_str@) {
            Err(why) => r matches Err(e) && e.message@ == "public_key is not valid hex"@ && e.cause
                == Some(Cause::Hex(why)),
            Ok(bytes) => if bytes.len() == 32 {
                match key::public_key_read(bytes) {
                    Ok(_) => r matches Ok(k) && k@ == bytes && k.wf(),
                    Err(why) => r matches Err(e) && e.says("invalid public key: "@ + why),
                }
            } else {
                r matches Err(e) && e.says("public_key must be 32 bytes"@)
            },
        },
{
    let bytes: Vec<u8> = match parse_hex(hex_str) {
        Ok(b) => b,
        Err(why) => {
            return Err(
                CliError {
                    message: String::from_str("public_key is not valid hex"),
                    cause: Some(Cause::Hex(why)),
                },
            );
        },
    };
    match array32(bytes.as_slice()) {
        Some(arr) => match PublicKey::from_bytes(&arr) {
            Ok(k) => Ok(k),
            Err(why) => Err(
                CliError::new(String::from_str("invalid public key: ").concat(why.as_str())),
            ),
        },
        None => Err(CliError::new(String::from_str("public_key must be 32 bytes"))),
    }
}

/// A key that was written in hexadecimal is read back.
pub proof fn lemma_keys_read_back(secret: SecretKey)
    ensures
        key::hex_result(key::hex_text(secret@)) == Ok::<Seq<u8>, HexError>(secret@),
        key::hex_result(key::hex_text(key::public_key_of(secret@))) == Ok::<Seq<u8>, HexError>(
            key::public_key_of(secret@),
        ),
{
    key::lemma_hex_roundtrip(secret@);
    key::lemma_hex_roundtrip(key::public_key_of(secret@));
}

/// The key that is printed for a host tunnel connects a client to that host: adding a client tunnel
/// with it, under a free name and at a free address, succeeds, and what is read from it is the
/// host's key again.
pub proof fn lemma_printed_key_is_accepted(
    public: PublicKey,
    cfg: Config,
    local: SocketAddr,
    protocol: TunnelProtocol,
    name: Seq<char>,
    r: Result<(Config, String), CliError>,
)
    requires
        public.wf(),
        !cfg.has_name(name),
        !client_at(cfg.client_tunnels@, local, protocol),
        client_addition(cfg, key::hex_text(public@), local, protocol, name, r),
    ensures
        r matches Ok((new, output)) && client_is_added(
            cfg,
            key::hex_text(public@),
            local,
            protocol,
            name,
            new,
        ),
        key::hex_result(key::hex_text(public@)) == Ok::<Seq<u8>, HexError>(public@),
        public@.len() == 32,
        key::public_key_read(public@) is Ok,
{
    key::lemma_hex_roundtrip(public@);
    public.lemma_len();
}

/// Whether a text is made of decimal digits.
pub open spec fn all_digits(s: Seq<char>) -> bool {
    forall|i: int| 0 <= i < s.len() ==> '0' <= #[trigger] s[i] <= '9'
}

/// The number that decimal digits stand for.
pub open spec fn digits_value(s: Seq<char>) -> nat
    decreases s.len(),
{
    if s.len() == 0 {
        0
    } else {
        10 * digits_value(s.drop_last()) + (s.last() as u32 - '0' as u32) as nat
    }
}

/// The number that a text stands for: decimal digits, at least one, with at most a plus sign before
/// them, and no more than 64 bits.
pub open spec fn number_read(s: Seq<char>) -> Option<u64> {
    let digits = if s.len() > 0 && s[0] == '+' {
        s.skip(1)
    } else {
        s
    };
    if digits.len() > 0 && all_digits(digits) && digits_value(digits) <= u64::MAX {
        Some(digits_value(digits) as u64)
    } else {
        None
    }
}

/// `str::parse::<u64>`: reads an optional plus sign and decimal digits, and nothing else; a number
/// that does not fit is an error.
#[verifier::external_body]
fn parse_u64(s: &str) -> (r: Option<u64>)
    ensures
        r == number_read(s@),
{
    s.parse::<u64>().ok()
}

/// The number of milliseconds in a setting, where it has one.
pub open spec fn millis_setting(s: Option<Seq<char>>) -> Option<u64> {
    match s {
        Some(t) => number_read(t),
        None => None,
    }
}

/// The reconnection policy that `LANTUN_RECONNECT_INITIAL_MS` and `LANTUN_RECONNECT_MAX_MS` ask
/// for, if either is set. Primarily useful for tests that need quicker retry cycles than the
/// production default (1s → 60s exponential).
pub fn reconnect_policy_from_env(initial: Option<String>, max: Option<String>) -> (r: Option<
    ReconnectPolicy,
>)
    ensures
        ({
            let init_ms = millis_setting(
                match initial {
                    Some(s) => Some(s@),
                    None => None,
                },
            );
            let max_ms = millis_setting(
                match max {
                    Some(s) => Some(s@),
                    None => None,
                },
            );
            if init_ms is None && max_ms is None {
                r is None
            } else {
                let init: int = if init_ms is Some {
                    init_ms->0 as int
                } else {
                    1000
                };
                let top: int = if max_ms is Some {
                    max_ms->0 as int
                } else if init > 60_000 {
                    init
                } else {
                    60_000
                };
                r matches Some(p) && p.max_attempts is None && p.initial_backoff.nanos == init
                    * 1_000_000 && p.max_backoff.nanos == top * 1_000_000
            }
        }),
{
    let init_ms: Option<u64> = match initial {
        Some(s) => parse_u64(s.as_str()),
        None => None,
    };
    let max_ms: Option<u64> = match max {
        Some(s) => parse_u64(s.as_str()),
        None => None,
    };
    if init_ms.is_none() && max_ms.is_none() {
        return None;
    }
    let init: u64 = match init_ms {
        Some(n) => n,
        None => 1000,
    };
    let top: u64 = match max_ms {
        Some(n) => n,
        None => if init > 60_000 {
            init
        } else {
            60_000
        },
    };
    Some(
        ReconnectPolicy {
            max_attempts: None,
            initial_backoff: Duration::from_millis(init),
            max_backoff: Duration::from_millis(top),
        },
    )
}

proof fn lemma_counted_once(cfg: Config, new: Config, name: Seq<char>)
    requires
        !cfg.has_name(name),
        forall|other: Seq<char>| #[trigger]
            new.count(other) == cfg.count(other) + (if other == name {
                1nat
            } else {
                0nat
            }),
    ensures
        new.has_name(name),
        new.count(name) == 1,
        cfg.unique_names() ==> new.unique_names(),
{
    named::lemma_name_count(cfg.host_tunnels@, name);
    named::lemma_name_count(cfg.client_tunnels@, name);
    named::lemma_name_count(new.host_tunnels@, name);
    named::lemma_name_count(new.client_tunnels@, name);
    assert(cfg.count(name) == 0);
    assert(new.count(name) == 1);
    if cfg.unique_names() {
        assert forall|other: Seq<char>| #[trigger] new.count(other) <= 1 by {
            assert(cfg.count(other) <= 1);
        }
    }
}

/// A host tunnel that was added under a free name is there, once; and unique names stay unique.
pub proof fn lemma_host_added_once(
    cfg: Config,
    local: SocketAddr,
    protocol: TunnelProtocol,
    name: Seq<char>,
    secret: Seq<u8>,
    new: Config,
    output: Seq<char>,
)
    requires
        !cfg.has_name(name),
        host_is_added(cfg, local, protocol, name, secret, new, output),
    ensures
        new.has_name(name),
        new.count(name) == 1,
        host_at(new.host_tunnels@, local, protocol),
        cfg.unique_names() ==> new.unique_names(),
{
    let e = choose|e: HostEntry|
        new_host(e, local, protocol, name, secret) && new.host_tunnels@ == #[trigger]
            named::sorted_by_name(cfg.host_tunnels@.push(e));
    assert forall|other: Seq<char>| #[trigger] new.count(other) == cfg.count(other) + (if other
        == name {
        1nat
    } else {
        0nat
    }) by {
        named::lemma_count_added(cfg.host_tunnels@, e, other);
    }
    lemma_counted_once(cfg, new, name);
    lemma_added_in_order(cfg.host_tunnels@, e);
    broadcast use vstd::seq_lib::group_to_multiset_ensures;

    assert(new.host_tunnels@.to_multiset().count(e) > 0);
    assert(new.host_tunnels@.contains(e));
}

/// A client tunnel that was added under a free name is there, once; and unique names stay unique.
pub proof fn lemma_client_added_once(
    cfg: Config,
    host_key: Seq<char>,
    local: SocketAddr,
    protocol: TunnelProtocol,
    name: Seq<char>,
    new: Config,
)
    requires
        !cfg.has_name(name),
        client_is_added(cfg, host_key, local, protocol, name, new),
    ensures
        new.has_name(name),
        new.count(name) == 1,
        client_at(new.client_tunnels@, local, protocol),
        cfg.unique_names() ==> new.unique_names(),
{
    let e = choose|e: ClientEntry|
        e.name@ == name && e.local == local && e.protocol == protocol && e.host_key@ == host_key
            && e.enabled && new.client_tunnels@ == #[trigger] named::sorted_by_name(
            cfg.client_tunnels@.push(e),
        );
    assert forall|other: Seq<char>| #[trigger] new.count(other) == cfg.count(other) + (if other
        == name {
        1nat
    } else {
        0nat
    }) by {
        named::lemma_count_added(cfg.client_tunnels@, e, other);
    }
    lemma_counted_once(cfg, new, name);
    lemma_added_in_order(cfg.client_tunnels@, e);
    broadcast use vstd::seq_lib::group_to_multiset_ensures;

    assert(new.client_tunnels@.to_multiset().count(e) > 0);
    assert(new.client_tunnels@.contains(e));
}

/// A host tunnel that was added at a free address is the only one there: every address and protocol
/// still has at most one host tunnel and at most one client tunnel.
pub proof fn lemma_host_places_stay_unique(
    cfg: Config,
    local: SocketAddr,
    protocol: TunnelProtocol,
    name: Seq<char>,
    secret: Seq<u8>,
    new: Config,
    output: Seq<char>,
)
    requires
        cfg.unique_places(),
        !host_at(cfg.host_tunnels@, local, protocol),
        host_is_added(cfg, local, protocol, name, secret, new, output),
    ensures
        new.unique_places(),
        new.hosts_at(local, protocol) == 1,
{
    let s = cfg.host_tunnels@;
    let e = choose|e: HostEntry|
        new_host(e, local, protocol, name, secret) && new.host_tunnels@ == #[trigger]
            named::sorted_by_name(s.push(e));
    assert forall|l: SocketAddr, p: TunnelProtocol| #[trigger] new.hosts_at(l, p) == cfg.hosts_at(
        l,
        p,
    ) + (if l == local && p == protocol {
        1nat
    } else {
        0nat
    }) by {
        named::lemma_sort_keeps_count(s.push(e), config::host_placed(l, p));
        reveal(Seq::filter);
        assert(s.push(e).drop_last() =~= s);
    }
    if cfg.hosts_at(local, protocol) > 0 {
        named::lemma_filter_keeps(s, config::host_placed(local, protocol), 0);
        let t = s.filter(config::host_placed(local, protocol))[0];
        let j = choose|j: int| 0 <= j < s.len() && s[j] == t;
        assert(s[j].local == local && s[j].protocol == protocol);
    }
    assert forall|l: SocketAddr, p: TunnelProtocol| #[trigger] new.hosts_at(l, p) <= 1 by {
        assert(cfg.hosts_at(l, p) <= 1);
    }
    assert forall|l: SocketAddr, p: TunnelProtocol| #[trigger] new.clients_at(l, p) <= 1 by {
        assert(cfg.clients_at(l, p) <= 1);
    }
}

/// A client tunnel that was added at a free address is the only one there: every address and protocol
/// still has at most one host tunnel and at most one client tunnel.
pub proof fn lemma_client_places_stay_unique(
    cfg: Config,
    host_key: Seq<char>,
    local: SocketAddr,
    protocol: TunnelProtocol,
    name: Seq<char>,
    new: Config,
)
    requires
        cfg.unique_places(),
        !client_at(cfg.client_tunnels@, local, protocol),
        client_is_added(cfg, host_key, local, protocol, name, new),
    ensures
        new.unique_places(),
        new.clients_at(local, protocol) == 1,
{
    let s = cfg.client_tunnels@;
    let e = choose|e: ClientEntry|
        e.name@ == name && e.local == local && e.protocol == protocol && e.host_key@ == host_key
            && e.enabled && new.client_tunnels@ == #[trigger] named::sorted_by_name(s.push(e));
    assert forall|l: SocketAddr, p: TunnelProtocol| #[trigger] new.clients_at(l, p)
        == cfg.clients_at(l, p) + (if l == local && p == protocol {
        1nat
    } else {
        0nat
    }) by {
        named::lemma_sort_keeps_count(s.push(e), config::client_placed(l, p));
        reveal(Seq::filter);
        assert(s.push(e).drop_last() =~= s);
    }
    if cfg.clients_at(local, protocol) > 0 {
        named::lemma_filter_keeps(s, config::client_placed(local, protocol), 0);
        let t = s.filter(config::client_placed(local, protocol))[0];
        let j = choose|j: int| 0 <= j < s.len() && s[j] == t;
        assert(s[j].local == local && s[j].protocol == protocol);
    }
    assert forall|l: SocketAddr, p: TunnelProtocol| #[trigger] new.clients_at(l, p) <= 1 by {
        assert(cfg.clients_at(l, p) <= 1);
    }
    assert forall|l: SocketAddr, p: TunnelProtocol| #[trigger] new.hosts_at(l, p) <= 1 by {
        assert(cfg.hosts_at(l, p) <= 1);
    }
}

/// Removing leaves at most one host tunnel and at most one client tunnel for every address and
/// protocol.
pub proof fn lemma_removal_keeps_places_unique(cfg: Config, new: Config, name: Seq<char>)
    requires
        cfg.unique_places(),
        new.host_tunnels@ == named::without_name(cfg.host_tunnels@, name),
        new.client_tunnels@ == named::without_name(cfg.client_tunnels@, name),
    ensures
        new.unique_places(),
{
    assert forall|l: SocketAddr, p: TunnelProtocol| #[trigger] new.hosts_at(l, p) <= 1 by {
        named::lemma_drop_keeps_bound(cfg.host_tunnels@, name, config::host_placed(l, p));
        assert(cfg.hosts_at(l, p) <= 1);
    }
    assert forall|l: SocketAddr, p: TunnelProtocol| #[trigger] new.clients_at(l, p) <= 1 by {
        named::lemma_drop_keeps_bound(cfg.client_tunnels@, name, config::client_placed(l, p));
        assert(cfg.clients_at(l, p) <= 1);
    }
}

/// Switching leaves at most one host tunnel and at most one client tunnel for every address and
/// protocol.
pub proof fn lemma_switch_keeps_places_unique(cfg: Config, new: Config, name: Seq<char>, on: bool)
    requires
        cfg.unique_places(),
        new.host_tunnels@ == named::with_enabled(cfg.host_tunnels@, name, on),
        new.client_tunnels@ == named::with_enabled(cfg.client_tunnels@, name, on),
    ensures
        new.unique_places(),
{
    assert forall|l: SocketAddr, p: TunnelProtocol| #[trigger] new.hosts_at(l, p) <= 1 by {
        named::lemma_switch_keeps_count(cfg.host_tunnels@, name, on, config::host_placed(l, p));
        assert(cfg.hosts_at(l, p) <= 1);
    }
    assert forall|l: SocketAddr, p: TunnelProtocol| #[trigger] new.clients_at(l, p) <= 1 by {
        named::lemma_switch_keeps_count(cfg.client_tunnels@, name, on, config::client_placed(l, p));
        assert(cfg.clients_at(l, p) <= 1);
    }
}

/// Adding keeps the tunnels in the order of their names.
pub proof fn lemma_added_in_order<T: Named>(tunnels: Seq<T>, entry: T)
    ensures
        named::is_sorted(named::sorted_by_name(tunnels.push(entry))),
        named::sorted_by_name(tunnels.push(entry)).to_multiset() == tunnels.to_multiset().insert(
            entry,
        ),
{
    named::lemma_sort_sorts(tunnels.push(entry));
    named::lemma_sort_permutes(tunnels.push(entry));
    broadcast use vstd::seq_lib::group_to_multiset_ensures;

}

/// Removing a name takes away every tunnel of that name and no other; names stay unique.
pub proof fn lemma_removed(cfg: Config, new: Config, name: Seq<char>)
    requires
        new.host_tunnels@ == named::without_name(cfg.host_tunnels@, name),
        new.client_tunnels@ == named::without_name(cfg.client_tunnels@, name),
    ensures
        !new.has_name(name),
        forall|other: Seq<char>| other != name ==> #[trigger] new.count(other) == cfg.count(other),
        cfg.unique_names() ==> new.unique_names(),
{
    assert forall|other: Seq<char>| #[trigger] new.count(other) == (if other == name {
        0
    } else {
        cfg.count(other)
    }) by {
        named::lemma_dropped(cfg.host_tunnels@, name, other);
        named::lemma_dropped(cfg.client_tunnels@, name, other);
    }
    assert(new.count(name) == 0);
    named::lemma_name_count(new.host_tunnels@, name);
    named::lemma_name_count(new.client_tunnels@, name);
    if cfg.unique_names() {
        assert forall|other: Seq<char>| #[trigger] new.count(other) <= 1 by {
            assert(cfg.count(other) <= 1);
        }
    }
}

/// Removing a host tunnel undoes adding it.
pub proof fn lemma_remove_undoes_add_host(cfg: Config, host: HostEntry)
    requires
        named::is_sorted(cfg.host_tunnels@),
        !cfg.has_name(host.name@),
    ensures
        named::without_name(
            named::sorted_by_name(cfg.host_tunnels@.push(host)),
            host.name@,
        ) == cfg.host_tunnels@,
        named::without_name(cfg.client_tunnels@, host.name@) == cfg.client_tunnels@,
{
    named::lemma_drop_undoes_add(cfg.host_tunnels@, host);
    named::lemma_drop_absent(cfg.client_tunnels@, host.name@);
}

/// Removing a client tunnel undoes adding it.
pub proof fn lemma_remove_undoes_add_client(cfg: Config, client: ClientEntry)
    requires
        named::is_sorted(cfg.client_tunnels@),
        !cfg.has_name(client.name@),
    ensures
        named::without_name(
            named::sorted_by_name(cfg.client_tunnels@.push(client)),
            client.name@,
        ) == cfg.client_tunnels@,
        named::without_name(cfg.host_tunnels@, client.name@) == cfg.host_tunnels@,
{
    named::lemma_drop_undoes_add(cfg.client_tunnels@, client);
    named::lemma_drop_absent(cfg.host_tunnels@, client.name@);
}

/// Of several switches of one name only the last counts; and switching changes nothing but the
/// enabled flag, of tunnels of that name.
pub proof fn lemma_last_switch_counts(cfg: Config, name: Seq<char>, first: bool, on: bool)
    ensures
        named::with_enabled(
            named::with_enabled(cfg.host_tunnels@, name, first),
            name,
            on,
        ) == named::with_enabled(cfg.host_tunnels@, name, on),
        named::with_enabled(
            named::with_enabled(cfg.client_tunnels@, name, first),
            name,
            on,
        ) == named::with_enabled(cfg.client_tunnels@, name, on),
        forall|i: int|
            0 <= i < cfg.host_tunnels@.len() ==> #[trigger] named::with_enabled(
                cfg.host_tunnels@,
                name,
                on,
            )[i] == (HostEntry {
                enabled: if cfg.host_tunnels@[i].name@ == name {
                    on
                } else {
                    cfg.host_tunnels@[i].enabled
                },
                ..cfg.host_tunnels@[i]
            }),
        forall|i: int|
            0 <= i < cfg.client_tunnels@.len() ==> #[trigger] named::with_enabled(
                cfg.client_tunnels@,
                name,
                on,
            )[i] == (ClientEntry {
                enabled: if cfg.client_tunnels@[i].name@ == name {
                    on
                } else {
                    cfg.client_tunnels@[i].enabled
                },
                ..cfg.client_tunnels@[i]
            }),
{
    named::lemma_switched(cfg.host_tunnels@, name, first, on);
    named::lemma_switched(cfg.client_tunnels@, name, first, on);
}

} // verus!
