use lantun::addr::SocketAddr;
use lantun::cli::config::{ClientEntry, Config, HostEntry};
use lantun::cli::run::{
    add_client, config_source, host_added, host_refused, init_tracing, list,
    reconnect_policy_from_env, remove, run, set_enabled, Cause, ConfigSource, LogSetup, Outcome,
};
use lantun::cli::run_all::{RunAction, RunAll, RunEvent, RunPhase};
use lantun::cli::{default_config_file, Action, Args, LogLevel};
use lantun::duration::Duration;
use lantun::error::Error;
use lantun::key::{HexError, SecretKey};
use lantun::tunnel::client::{HostTarget, ReconnectPolicy};
use lantun::tunnel::TunnelProtocol;

const SECRET: &str = "9d61b19deffd5a60ba844af492ec2cc44449c5697b326919703bac031cae7f60";
const PUBLIC: &str = "d75a980182b10ab7d54bfed3c964073a0ee172f3daa62325af021a68f707511a";
const LOCAL: SocketAddr = SocketAddr::V4 { ip: 0x7f000001, port: 25565 };
const OTHER: SocketAddr = SocketAddr::V4 { ip: 0x7f000001, port: 1 };

fn host(name: &str, enabled: bool) -> HostEntry {
    HostEntry {
        name: name.to_string(),
        local: LOCAL,
        protocol: TunnelProtocol::Tcp,
        secret_key: SECRET.to_string(),
        enabled,
    }
}

fn client(name: &str, enabled: bool) -> ClientEntry {
    ClientEntry {
        name: name.to_string(),
        local: LOCAL,
        protocol: TunnelProtocol::Udp,
        host_key: PUBLIC.to_string(),
        enabled,
    }
}

fn config(hosts: Vec<HostEntry>, clients: Vec<ClientEntry>) -> Config {
    Config { host_tunnels: hosts, client_tunnels: clients }
}

fn names(cfg: &Config) -> Vec<String> {
    cfg.host_tunnels
        .iter()
        .map(|t| t.name.clone())
        .chain(cfg.client_tunnels.iter().map(|t| t.name.clone()))
        .collect()
}

fn known_secret() -> SecretKey {
    lantun::cli::run::decode_secret_key(SECRET).unwrap()
}

#[test]
fn adding_a_host() {
    let cfg = config(vec![host("z", true)], vec![]);
    assert!(host_refused(&cfg, OTHER, TunnelProtocol::Tcp, "mc-server").is_none());
    let (cfg, output) =
        host_added(cfg, OTHER, TunnelProtocol::Tcp, "mc-server".to_string(), known_secret());
    assert_eq!(names(&cfg), vec!["mc-server", "z"]);
    assert_eq!(cfg.host_tunnels[0].secret_key, SECRET);
    assert_eq!(cfg.host_tunnels[0].public_key_hex(), PUBLIC);
    assert!(cfg.host_tunnels[0].enabled);
    assert_eq!(
        output,
        format!(
            "Created host tunnel \"mc-server\" on 127.0.0.1:1/tcp\nPublic key: {}\nPeers can connect with:\n  lantun add-client {} <local> tcp <name>\n",
            PUBLIC, PUBLIC
        )
    );
}

#[test]
fn refused_hosts() {
    let cfg = config(vec![host("a", true)], vec![client("c", true)]);
    for name in ["a", "c"] {
        let e = host_refused(&cfg, OTHER, TunnelProtocol::Tcp, name).unwrap();
        assert_eq!(e.message, format!("tunnel name \"{}\" is already taken", name));
    }
    let e = host_refused(&cfg, LOCAL, TunnelProtocol::Tcp, "b").unwrap();
    assert_eq!(e.message, "host tunnel 127.0.0.1:25565/tcp already exists");
    assert!(host_refused(&cfg, LOCAL, TunnelProtocol::Udp, "b").is_none());
    assert!(cfg.name_taken("a"));
    assert!(!cfg.name_taken("b"));
}

#[test]
fn add_host_through_run() {
    let action =
        Action::AddHost { local: LOCAL, protocol: TunnelProtocol::Tcp, name: "h".to_string() };
    match run(Some(action), Config::default()).unwrap() {
        Outcome::Save { config, output } => {
            assert_eq!(names(&config), vec!["h"]);
            let key = config.host_tunnels[0].public_key_hex();
            assert_eq!(key.len(), 64);
            assert!(output.contains(&key));
        }
        other => panic!("unexpected {:?}", other),
    }
    let action =
        Action::AddHost { local: LOCAL, protocol: TunnelProtocol::Tcp, name: "h".to_string() };
    let e = run(Some(action), config(vec![host("h", true)], vec![])).unwrap_err();
    assert_eq!(e.message, "tunnel name \"h\" is already taken");
}

#[test]
fn adding_a_client() {
    let cfg = config(vec![], vec![client("z", true)]);
    let (cfg, output) = add_client(
        cfg,
        PUBLIC.to_string(),
        OTHER,
        TunnelProtocol::Tcp,
        "mc-client".to_string(),
    )
    .unwrap();
    assert_eq!(names(&cfg), vec!["mc-client", "z"]);
    assert_eq!(cfg.client_tunnels[0].host_key, PUBLIC);
    assert_eq!(output, "Created client tunnel \"mc-client\" on 127.0.0.1:1/tcp\n");
}

#[test]
fn refused_clients() {
    let add = |key: &str, local: SocketAddr, name: &str| {
        add_client(
            config(vec![], vec![client("c", true)]),
            key.to_string(),
            local,
            TunnelProtocol::Udp,
            name.to_string(),
        )
        .unwrap_err()
    };
    assert_eq!(add("zz", LOCAL, "c").message, "tunnel name \"c\" is already taken");
    let e = add("zz", LOCAL, "d");
    assert_eq!(e.message, "host key is not valid hex");
    assert!(matches!(
        e.cause,
        Some(Cause::Hex(HexError::InvalidHexCharacter { c: 'z', index: 0 }))
    ));
    assert_eq!(
        add("00ff", LOCAL, "d").message,
        "host key must be 32 bytes (64 hex chars), got 2"
    );
    assert_eq!(add(PUBLIC, LOCAL, "d").message, "client tunnel 127.0.0.1:25565/udp already exists");
}

#[test]
fn removing() {
    let cfg = config(vec![host("a", true), host("b", true)], vec![client("c", true)]);
    let (cfg, output) = remove(cfg, "b").unwrap();
    assert_eq!(names(&cfg), vec!["a", "c"]);
    assert_eq!(output, "Removed \"b\"\n");
    let e = remove(cfg, "b").unwrap_err();
    assert_eq!(e.message, "no tunnel named \"b\"");
}

#[test]
fn remove_undoes_add() {
    let cfg = config(vec![host("a", true), host("z", false)], vec![client("k", true)]);
    let (cfg, _) = host_added(cfg, OTHER, TunnelProtocol::Udp, "m".to_string(), known_secret());
    assert_eq!(names(&cfg), vec!["a", "m", "z", "k"]);
    let (cfg, _) = remove(cfg, "m").unwrap();
    assert_eq!(names(&cfg), vec!["a", "z", "k"]);
}

#[test]
fn switching() {
    let cfg = config(vec![host("a", true)], vec![client("b", false)]);
    let (cfg, output) = set_enabled(cfg, "a", false).unwrap();
    assert!(!cfg.host_tunnels[0].enabled);
    assert_eq!(output, "a: disabled\n");
    let (cfg, output) = set_enabled(cfg, "b", true).unwrap();
    assert!(cfg.client_tunnels[0].enabled);
    assert_eq!(output, "b: enabled\n");
    assert_eq!(set_enabled(cfg, "x", true).unwrap_err().message, "no tunnel named \"x\"");
}

#[test]
fn switching_through_run() {
    let cfg = config(vec![host("a", true)], vec![]);
    match run(Some(Action::Disable { name: "a".to_string() }), cfg).unwrap() {
        Outcome::Save { config, .. } => assert!(!config.host_tunnels[0].enabled),
        other => panic!("unexpected {:?}", other),
    }
    let e = run(Some(Action::Enable { name: "q".to_string() }), Config::default()).unwrap_err();
    assert_eq!(e.message, "no tunnel named \"q\"");
    assert!(matches!(run(None, Config::default()), Ok(Outcome::RunAll(_))));
}

#[test]
fn the_list() {
    assert_eq!(
        list(&Config::default()),
        "Host tunnels:\n  (none)\n\nClient tunnels:\n  (none)\n"
    );
    let mut bad = host("bad", false);
    bad.secret_key = "not_valid_hex".to_string();
    let cfg = config(vec![host("a", true), bad], vec![client("c", true)]);
    assert_eq!(
        list(&cfg),
        format!(
            "Host tunnels:\n  [ ] a: 127.0.0.1:25565 (tcp) key={}\n  [d] bad: 127.0.0.1:25565 (tcp) key=<invalid>\n\nClient tunnels:\n  [ ] c: 127.0.0.1:25565 (udp) -> {}\n",
            PUBLIC, PUBLIC
        )
    );
}

#[test]
fn inline_tunnels_exclude_subcommands() {
    let args = |hosts: Option<&str>, clients: Option<&str>, action: Option<Action>| Args {
        log_level: None,
        host_tunnels: hosts.map(str::to_string),
        client_tunnels: clients.map(str::to_string),
        action,
    };
    assert_eq!(config_source(&args(None, None, None)).unwrap(), ConfigSource::File);
    assert_eq!(config_source(&args(None, None, Some(Action::List))).unwrap(), ConfigSource::File);
    assert_eq!(config_source(&args(Some("[]"), None, None)).unwrap(), ConfigSource::Inline);
    assert_eq!(config_source(&args(None, Some("[]"), None)).unwrap(), ConfigSource::Inline);
    let e = config_source(&args(Some("[]"), None, Some(Action::List))).unwrap_err();
    assert_eq!(
        e.message,
        "--host-tunnels and --client-tunnels cannot be combined with a subcommand"
    );
}

#[test]
fn logging() {
    assert!(matches!(
        init_tracing(Some(LogLevel::Debug), Some("x".to_string())),
        LogSetup::Level(LogLevel::Debug)
    ));
    match init_tracing(None, Some("warn".to_string())) {
        LogSetup::Filter(f) => assert_eq!(f, "warn"),
        other => panic!("unexpected {:?}", other),
    }
    match init_tracing(None, None) {
        LogSetup::Filter(f) => assert_eq!(f, "lantun=info"),
        other => panic!("unexpected {:?}", other),
    }
}

fn env(initial: Option<&str>, max: Option<&str>) -> Option<ReconnectPolicy> {
    reconnect_policy_from_env(initial.map(str::to_string), max.map(str::to_string))
}

fn ms(initial: u64, max: u64) -> Option<ReconnectPolicy> {
    Some(ReconnectPolicy {
        max_attempts: None,
        initial_backoff: Duration::from_millis(initial),
        max_backoff: Duration::from_millis(max),
    })
}

#[test]
fn reconnect_policy_of_the_environment() {
    assert_eq!(env(None, None), None);
    assert_eq!(env(Some("abc"), Some("-1")), None);
    assert_eq!(env(Some(""), Some("+")), None);
    assert_eq!(env(Some(" 5"), None), None);
    assert_eq!(env(Some("18446744073709551616"), None), None);
    assert_eq!(env(Some("200"), Some("1000")), ms(200, 1000));
    assert_eq!(env(Some("+007"), Some("8")), ms(7, 8));
    assert_eq!(env(Some("200"), None), ms(200, 60_000));
    assert_eq!(env(Some("70000"), None), ms(70_000, 70_000));
    assert_eq!(env(None, Some("5")), ms(1000, 5));
    assert_eq!(env(Some("x"), Some("5")), ms(1000, 5));
}

#[test]
fn nothing_to_run() {
    let mut r = RunAll::new(config(vec![host("a", false)], vec![client("b", false)]), None);
    let step = r.run_all(RunEvent::Begin);
    assert_eq!(
        step.say,
        "No enabled tunnels. Add one with `lantun add-host` or `lantun add-client`.\n"
    );
    assert!(matches!(step.action, RunAction::Exit(Ok(()))));
}

/// Disabled tunnels are not started; the others are, hosts first, and all are shut down in the end.
#[test]
fn disabled_tunnels_are_not_started() {
    let cfg = config(
        vec![host("a", true), host("off", false)],
        vec![client("dis", false), client("en", true)],
    );
    let mut r = RunAll::new(cfg, ms(5, 6));
    let step = r.run_all(RunEvent::Begin);
    assert_eq!(step.say, "");
    match step.action {
        RunAction::StartHost(b) => {
            assert_eq!(b.name, "a");
            assert_eq!(b.forward_to, Some(LOCAL));
            assert_eq!(b.protocol, Some(TunnelProtocol::Tcp));
            assert_eq!(b.secret.unwrap().to_bytes(), known_secret().to_bytes());
        }
        other => panic!("unexpected {:?}", other),
    }
    let step = r.run_all(RunEvent::Started);
    assert_eq!(
        step.say,
        format!(
            "host \"a\" listening for peers on 127.0.0.1:25565/tcp (public key {})\n",
            PUBLIC
        )
    );
    match step.action {
        RunAction::StartClient(b) => {
            assert_eq!(b.name, "en");
            assert_eq!(b.bind, Some(LOCAL));
            assert_eq!(Some(b.reconnect), ms(5, 6));
            match b.host {
                Some(HostTarget::Key(k)) => assert_eq!(k.to_text(), PUBLIC),
                other => panic!("unexpected {:?}", other),
            }
        }
        other => panic!("unexpected {:?}", other),
    }
    let step = r.run_all(RunEvent::Started);
    assert_eq!(step.say, "client \"en\" bound to 127.0.0.1:25565/udp\nPress Ctrl-C to stop.\n");
    assert!(matches!(step.action, RunAction::Wait));
    let step = r.run_all(RunEvent::Interrupt);
    assert_eq!(step.say, "\nShutting down...\n");
    assert!(matches!(step.action, RunAction::ShutDown));
    let step = r.run_all(RunEvent::Down);
    assert!(matches!(step.action, RunAction::Exit(Ok(()))));
    assert_eq!(r.phase, RunPhase::Done);
}

fn exit_error(action: RunAction) -> (String, bool) {
    match action {
        RunAction::Exit(Err(e)) => (e.message, e.cause.is_some()),
        other => panic!("unexpected {:?}", other),
    }
}

#[test]
fn an_unreadable_key_ends_the_program() {
    let mut bad = host("bad", true);
    bad.secret_key = "not_valid_hex".to_string();
    let mut r = RunAll::new(config(vec![bad], vec![]), None);
    let step = r.run_all(RunEvent::Begin);
    assert_eq!(exit_error(step.action), ("secret_key is not valid hex".to_string(), true));

    let mut bad = client("bad", true);
    bad.host_key = "00".to_string();
    let mut r = RunAll::new(config(vec![], vec![bad]), None);
    let step = r.run_all(RunEvent::Begin);
    assert_eq!(exit_error(step.action), ("public_key must be 32 bytes".to_string(), false));
}

#[test]
fn failures_while_running() {
    let mut r = RunAll::new(config(vec![host("a", true)], vec![]), None);
    r.run_all(RunEvent::Begin);
    let step = r.run_all(RunEvent::StartFailed(Error::NotRunning));
    assert_eq!(exit_error(step.action), ("failed to start host tunnel a".to_string(), true));

    let mut r = RunAll::new(config(vec![], vec![client("c", true)]), None);
    r.run_all(RunEvent::Begin);
    let step = r.run_all(RunEvent::StartFailed(Error::NotRunning));
    assert_eq!(exit_error(step.action), ("failed to start client tunnel c".to_string(), true));

    let mut r = RunAll::new(config(vec![host("a", true)], vec![]), None);
    r.run_all(RunEvent::Begin);
    r.run_all(RunEvent::Started);
    let step = r.run_all(RunEvent::SignalFailed("no signals".to_string()));
    assert_eq!(exit_error(step.action), ("no signals".to_string(), false));
}

#[test]
fn the_death_of_a_host() {
    let mut second = host("b", true);
    second.local = OTHER;
    let mut r = RunAll::new(config(vec![host("a", true), second], vec![]), None);
    r.run_all(RunEvent::Begin);
    r.run_all(RunEvent::Started);
    r.run_all(RunEvent::Started);
    let step = r.run_all(RunEvent::HostDied(1));
    assert!(matches!(step.action, RunAction::ShutDown));
    let step = r.run_all(RunEvent::Down);
    assert_eq!(
        exit_error(step.action).0,
        "host tunnel \"b\" died unexpectedly — exiting..."
    );
}

#[test]
fn the_printed_key_connects_a_client() {
    let added = run(
        Some(Action::AddHost {
            local: LOCAL,
            protocol: TunnelProtocol::Tcp,
            name: "h".to_string(),
        }),
        config(vec![], vec![]),
    );
    let Ok(Outcome::Save { config: cfg, output }) = added else { panic!("not saved") };
    let printed = output.lines().nth(1).unwrap().strip_prefix("Public key: ").unwrap();
    let (cfg, _) =
        add_client(cfg, printed.to_string(), OTHER, TunnelProtocol::Tcp, "c".to_string()).unwrap();
    let secret = lantun::cli::run::decode_secret_key(&cfg.host_tunnels[0].secret_key).unwrap();
    let key = lantun::cli::run::decode_public_key(&cfg.client_tunnels[0].host_key).unwrap();
    assert_eq!(key.as_bytes(), secret.public().as_bytes());
}

#[test]
fn whole_seconds() {
    assert_eq!(Duration { nanos: 1_999_999_999 }.as_secs(), 1);
    assert_eq!(Duration::from_millis(60_500).as_secs(), 60);
    assert_eq!(Duration::from_secs(u64::MAX).as_secs(), u64::MAX);
}

#[test]
fn add_host_prints_four_lines() {
    let (_, output) = host_added(
        config(vec![], vec![]),
        LOCAL,
        TunnelProtocol::Tcp,
        "mc-server".to_string(),
        known_secret(),
    );
    let lines: Vec<&str> = output.lines().collect();
    assert_eq!(lines.len(), 4);
    assert_eq!(lines[0], "Created host tunnel \"mc-server\" on 127.0.0.1:25565/tcp");
    assert_eq!(lines[1], format!("Public key: {}", PUBLIC));
    assert_eq!(lines[2], "Peers can connect with:");
    assert_eq!(lines[3], format!("  lantun add-client {} <local> tcp <name>", PUBLIC));
}

#[test]
fn where_the_config_file_is() {
    assert_eq!(default_config_file("/home/u/.config", "/"), "/home/u/.config/lantun/lantun.toml");
    assert_eq!(default_config_file("C:\\R", "\\"), "C:\\R\\lantun\\lantun.toml");
}

#[test]
fn every_place_stays_unique() {
    let cfg = config(vec![host("h", true)], vec![client("c", true)]);
    assert!(host_refused(&cfg, LOCAL, TunnelProtocol::Tcp, "new").is_some());
    assert!(host_refused(&cfg, LOCAL, TunnelProtocol::Udp, "new").is_none());
    let (cfg, _) =
        host_added(cfg, LOCAL, TunnelProtocol::Udp, "new".to_string(), known_secret());
    let (cfg, _) = set_enabled(cfg, "h", false).unwrap();
    let at = |cfg: &Config, p: TunnelProtocol| {
        cfg.host_tunnels.iter().filter(|t| t.local == LOCAL && t.protocol == p).count()
    };
    assert_eq!(at(&cfg, TunnelProtocol::Tcp), 1);
    assert_eq!(at(&cfg, TunnelProtocol::Udp), 1);
    let (cfg, _) = remove(cfg, "h").unwrap();
    assert_eq!(at(&cfg, TunnelProtocol::Tcp), 0);
    assert_eq!(at(&cfg, TunnelProtocol::Udp), 1);
}
