use lantun::addr::SocketAddr;
use lantun::duration::Duration;
use lantun::engine::cli::{
    create_client, create_host, list, log_setup, remove, run_action, Action, Outcome, TuiApp,
};
use lantun::engine::client::{ClientError, ClientState, ListenAction, ListenEvent};
use lantun::engine::common::{
    receive_packet, Client2HostControlMsg, LocalClientConnection, TunnelCommon,
    CONNECTION_TIMEOUT_SECONDS, TUNNEL_FORWARDER_BUFFER_SIZE,
};
use lantun::engine::config::{ClientTunnelEntry, HostTunnelEntry, LanTunConfig, StateError};
use lantun::engine::host::{AcceptAction, AcceptEvent, HostError, HostState, HostTunnel};
use lantun::engine::net::{
    bi_tcp_stream_client, bi_tcp_stream_host, bi_udp_client, bi_udp_host, Forwarder, Half,
    PumpAction, PumpEvent, Side,
};
use lantun::engine::utils::{epoch_secs, now_secs};
use lantun::engine::{get_unspecified, LanTun};
use lantun::key::{gen_secret, HexError};
use lantun::table::Table;
use lantun::tunnel::TunnelProtocol;

const SECRET: &str = "9d61b19deffd5a60ba844af492ec2cc44449c5697b326919703bac031cae7f60";
const PUBLIC: &str = "d75a980182b10ab7d54bfed3c964073a0ee172f3daa62325af021a68f707511a";
const LOCAL: SocketAddr = SocketAddr::V4 { ip: 0x7f000001, port: 25565 };
const APP: SocketAddr = SocketAddr::V4 { ip: 0x7f000001, port: 50000 };
const ANY: SocketAddr = SocketAddr::V4 { ip: 0, port: 0 };

fn connection(last_active: u64) -> LocalClientConnection {
    LocalClientConnection { client_local_addr: APP, client_virtual_addr: ANY, last_active }
}

fn host_entry(name: &str, port: u16) -> HostTunnelEntry {
    HostTunnelEntry {
        name: name.to_string(),
        local: SocketAddr::V4 { ip: 0x7f000001, port },
        protocol: TunnelProtocol::Tcp,
        private_secret: SECRET.to_string(),
        public_secret: PUBLIC.to_string(),
        enabled: true,
    }
}

fn client_entry(name: &str, port: u16) -> ClientTunnelEntry {
    ClientTunnelEntry {
        name: name.to_string(),
        local: SocketAddr::V4 { ip: 0x7f000001, port },
        protocol: TunnelProtocol::Udp,
        secret: PUBLIC.to_string(),
        enabled: false,
    }
}

#[test]
fn engine_constants() {
    assert_eq!(CONNECTION_TIMEOUT_SECONDS, 20);
    assert_eq!(TUNNEL_FORWARDER_BUFFER_SIZE, 1024);
    assert_eq!(get_unspecified(true), ANY);
    assert!(!get_unspecified(false).is_ipv4());
    assert!(now_secs().unwrap() > 1_600_000_000);
}

#[test]
fn host_tunnel_lifecycle() {
    let mut state = HostState::new();
    let t = state.create_tunnel(LOCAL, "h".to_string(), [5; 32], TunnelProtocol::Tcp);
    assert_eq!(t.secret(), [5; 32]);
    assert_eq!(TunnelCommon::name(t), "h");
    assert_eq!(t.addr(), LOCAL);
    assert!(!t.is_running());
    assert_eq!(t.start().unwrap().to_bytes(), [5; 32]);
    t.opened();
    assert!(t.is_running());
    assert_eq!(t.start().unwrap_err(), HostError::TunnelAlreadyOpen);
    assert_eq!(HostError::TunnelAlreadyOpen.to_text(), "Tunnel is already open");
    assert_eq!(t.stop(), Ok(true));
    assert!(!t.is_running());
    assert_eq!(t.stop(), Ok(false));
    assert_eq!(t.num_clients(), 0);
    assert_eq!(t.num_active_connections(), 0);
}

#[test]
fn host_clients_and_connections() {
    let mut state = HostState::new();
    let t = state.create_tunnel(LOCAL, "h".to_string(), [5; 32], TunnelProtocol::Udp);
    t.opened();
    let a = gen_secret().public();
    let b = gen_secret().public();
    assert!(matches!(t.accept(AcceptEvent::Nothing), AcceptAction::Next));
    assert!(matches!(t.accept(AcceptEvent::Failed), AcceptAction::Next));
    assert!(matches!(t.accept(AcceptEvent::Connected(a)), AcceptAction::Serve(_)));
    assert!(matches!(t.accept(AcceptEvent::Connected(a)), AcceptAction::Ignore));
    assert!(matches!(t.accept(AcceptEvent::Connected(b)), AcceptAction::Serve(_)));
    assert_eq!(t.num_clients(), 2);
    let plan = t.handle_connection(a, Client2HostControlMsg::ConnReq { local_addr: APP });
    assert_eq!(plan.protocol, TunnelProtocol::Udp);
    assert_eq!(plan.connection, connection(0));
    assert!(plan.ipv4);
    assert_eq!(plan.connect, LOCAL);
    let v6 = SocketAddr::V6 { ip: 1, port: 5, flowinfo: 0, scope_id: 0 };
    t.handle_connection(b, Client2HostControlMsg::ConnReq { local_addr: v6 });
    t.handle_connection(b, Client2HostControlMsg::ConnReq { local_addr: APP });
    assert_eq!(t.num_active_connections(), 3);
    let clients = t.running_props.as_mut().unwrap();
    let client = clients.tunnel_clients.get_mut(a).unwrap();
    assert!(HostTunnel::disconnect_local_client_connection(client, &plan.connection));
    assert!(!HostTunnel::disconnect_local_client_connection(client, &plan.connection));
    assert_eq!(t.num_active_connections(), 2);
}

#[test]
fn one_host_tunnel_per_secret() {
    let mut state = HostState::new();
    state.create_tunnel(LOCAL, "first".to_string(), [5; 32], TunnelProtocol::Udp);
    state.create_tunnel(LOCAL, "second".to_string(), [5; 32], TunnelProtocol::Udp);
    state.create_tunnel(LOCAL, "third".to_string(), [6; 32], TunnelProtocol::Udp);
    assert_eq!(state.tunnels().len(), 2);
    assert_eq!(state.get_tunnel(&[5; 32]).unwrap().name, "second");
    assert!(state.get_tunnel(&[7; 32]).is_none());
    state.get_tunnel_mut(&[6; 32]).unwrap().name = "renamed".to_string();
    assert_eq!(state.get_tunnel(&[6; 32]).unwrap().name, "renamed");
}

#[test]
fn one_client_tunnel_per_address() {
    let key = *gen_secret().public().as_bytes();
    let mut state = ClientState::new();
    state.create_tunnel(LOCAL, "c".to_string(), key, TunnelProtocol::Tcp).unwrap();
    state.create_tunnel(LOCAL, "d".to_string(), key, TunnelProtocol::Udp).unwrap();
    let e = state.create_tunnel(LOCAL, "e".to_string(), key, TunnelProtocol::Tcp).unwrap_err();
    assert_eq!(e, ClientError::TunnelAlreadyExists(LOCAL, TunnelProtocol::Tcp));
    assert_eq!(e.to_text(), "Tunnel with local address 127.0.0.1:25565/tcp already exists");
    assert_eq!(state.tunnels().len(), 2);
    assert_eq!(state.get_tunnel(LOCAL, TunnelProtocol::Udp).unwrap().name, "d");
    assert!(state.get_tunnel(APP, TunnelProtocol::Udp).is_none());
    assert_eq!(state.get_tunnel_mut(LOCAL, TunnelProtocol::Tcp).unwrap().client_addr(), LOCAL);
}

#[test]
fn a_client_of_no_key_is_refused() {
    let mut refused = 0;
    for first in 0..=255u8 {
        let mut key = [0u8; 32];
        key[0] = first;
        let mut state = ClientState::new();
        if let Err(e) = state.create_tunnel(LOCAL, "c".to_string(), key, TunnelProtocol::Tcp) {
            assert!(matches!(e, ClientError::InvalidPublicKey(_)));
            assert_eq!(state.tunnels().len(), 0);
            refused += 1;
        }
    }
    assert!(refused > 0);
}

#[test]
fn client_tunnel_lifecycle() {
    let key = *gen_secret().public().as_bytes();
    let mut state = ClientState::new();
    let t = state.create_tunnel(LOCAL, "c".to_string(), key, TunnelProtocol::Udp).unwrap();
    assert_eq!(t.disconnect(), Err(ClientError::NotConnected));
    assert_eq!(t.connect().unwrap().as_bytes(), &key);
    t.connected();
    assert!(t.is_running());
    assert_eq!(t.connect().unwrap_err(), ClientError::AlreadyConnected);
    match t.listen(ListenEvent::Local(APP)) {
        ListenAction::Forward { connection: c, packet } => {
            assert_eq!(c, connection(0));
            assert_eq!(t.num_active_connections(), 0);
            t.stream_opened(c);
            assert_eq!(
                receive_packet(&packet),
                Ok(Client2HostControlMsg::ConnReq { local_addr: APP })
            );
        }
        other => panic!("unexpected {:?}", other),
    }
    assert_eq!(t.num_active_connections(), 1);
    assert_eq!(t.listen(ListenEvent::Local(APP)), ListenAction::Next);
    assert_eq!(t.listen(ListenEvent::Stop(false)), ListenAction::Next);
    assert_eq!(t.listen(ListenEvent::Failed), ListenAction::Hold);
    assert_eq!(t.listen(ListenEvent::Stop(true)), ListenAction::End);
    assert_eq!(t.disconnect(), Ok(()));
    assert_eq!(t.num_active_connections(), 0);
}

#[test]
fn tcp_connections_are_always_new() {
    let key = *gen_secret().public().as_bytes();
    let mut state = ClientState::new();
    let t = state.create_tunnel(LOCAL, "c".to_string(), key, TunnelProtocol::Tcp).unwrap();
    t.connected();
    assert!(matches!(t.listen(ListenEvent::Local(APP)), ListenAction::Forward { .. }));
    t.stream_opened(connection(0));
    assert!(matches!(t.listen(ListenEvent::Local(APP)), ListenAction::Forward { .. }));
    t.stream_opened(connection(0));
    assert_eq!(t.num_active_connections(), 1);
}

#[test]
fn silence_ends_a_connection() {
    let c = connection(100);
    assert!(!c.timed_out(119));
    assert!(c.timed_out(120));
    assert!(!c.timed_out(50));
    assert_eq!(c.time_left(100), Duration::from_secs(20));
    assert_eq!(c.time_left(113), Duration::from_secs(7));
    assert_eq!(c.time_left(500), Duration::from_secs(0));
    assert_eq!(c.time_left(0), Duration::from_secs(20));
}

#[test]
fn a_forwarder_on_the_client() {
    let mut list: Table<SocketAddr, LocalClientConnection> = Table::new();
    list.insert(APP, connection(0));
    let mut f = Forwarder::new(connection(0), 100);
    assert_eq!(
        bi_tcp_stream_client(&mut f, &mut list, Side::Tunnel, PumpEvent::Read(Some(vec![1, 2])), 115),
        PumpAction::Write(vec![1, 2])
    );
    assert_eq!(
        bi_tcp_stream_client(&mut f, &mut list, Side::Local, PumpEvent::Slept, 120),
        PumpAction::Again
    );
    assert_eq!(
        bi_tcp_stream_client(&mut f, &mut list, Side::Local, PumpEvent::ReadFailed, 121),
        PumpAction::Hold
    );
    assert_eq!(
        bi_tcp_stream_client(&mut f, &mut list, Side::Local, PumpEvent::Slept, 135),
        PumpAction::End
    );
    assert_eq!(list.len(), 1);
    assert_eq!(
        bi_tcp_stream_client(&mut f, &mut list, Side::Tunnel, PumpEvent::Read(None), 135),
        PumpAction::End
    );
    assert!(f.is_over());
    assert_eq!(list.len(), 0);
}

#[test]
fn a_forwarder_on_the_host() {
    let mut state = HostState::new();
    let t = state.create_tunnel(LOCAL, "h".to_string(), [5; 32], TunnelProtocol::Tcp);
    t.opened();
    let peer = gen_secret().public();
    t.accept(AcceptEvent::Connected(peer));
    let plan = t.handle_connection(peer, Client2HostControlMsg::ConnReq { local_addr: APP });
    let client = t.running_props.as_mut().unwrap().tunnel_clients.get_mut(peer).unwrap();
    let mut f = Forwarder::new(plan.connection, 7);
    assert_eq!(f.connection.last_active, 7);
    assert_eq!(
        bi_tcp_stream_host(&mut f, client, Side::Local, PumpEvent::Stop(false), 8),
        PumpAction::Again
    );
    assert_eq!(
        bi_udp_host(&mut f, client, Side::Local, PumpEvent::Read(Some(vec![])), 8),
        PumpAction::End
    );
    assert_eq!(f.from_local, Half::Ended);
    assert_eq!(client.local_connections.len(), 1);
    assert_eq!(
        bi_tcp_stream_host(&mut f, client, Side::Tunnel, PumpEvent::WriteFailed, 8),
        PumpAction::End
    );
    assert_eq!(f.from_tunnel, Half::Died);
    assert_eq!(client.local_connections.len(), 0);
}

#[test]
fn a_shared_socket() {
    let mut list: Table<SocketAddr, LocalClientConnection> = Table::new();
    list.insert(APP, connection(0));
    let mut f = Forwarder::new(connection(0), 0);
    assert_eq!(
        bi_udp_client(&mut f, &mut list, Side::Local, PumpEvent::Peeked(LOCAL), 1),
        PumpAction::Again
    );
    assert_eq!(
        bi_udp_client(&mut f, &mut list, Side::Local, PumpEvent::Peeked(APP), 1),
        PumpAction::Receive
    );
    assert_eq!(
        bi_udp_client(&mut f, &mut list, Side::Local, PumpEvent::Missed, 1),
        PumpAction::Again
    );
    assert_eq!(
        bi_udp_client(&mut f, &mut list, Side::Local, PumpEvent::Read(Some(vec![3])), 9),
        PumpAction::Write(vec![3])
    );
    assert_eq!(f.connection.last_active, 9);
    assert_eq!(
        bi_udp_client(&mut f, &mut list, Side::Local, PumpEvent::Stop(true), 9),
        PumpAction::End
    );
}

#[test]
fn state_of_a_configuration() {
    let cfg = LanTunConfig {
        host_tunnels: vec![host_entry("a", 1), host_entry("b", 2)],
        client_tunnels: vec![client_entry("c", 3), client_entry("d", 4)],
    };
    let l = cfg.create_state().unwrap();
    let secret: [u8; 32] = hex::decode(SECRET).unwrap().try_into().unwrap();
    assert_eq!(l.host.tunnels().len(), 1);
    assert_eq!(l.host.get_tunnel(&secret).unwrap().name, "b");
    assert_eq!(l.client.tunnels().len(), 2);
    let tui = TuiApp::new(l);
    assert_eq!(tui.num_host_tunnels, 1);
    assert_eq!(tui.num_client_tunnels, 2);
    assert_eq!(tui.selected_tunnel, 0);
    assert!(!tui.exit);
    let empty = LanTun::default();
    assert_eq!(empty.host.tunnels().len(), 0);
}

#[test]
fn unusable_configurations() {
    let mut bad = host_entry("a", 1);
    bad.private_secret = "xyz".to_string();
    let cfg = LanTunConfig { host_tunnels: vec![bad], client_tunnels: vec![] };
    assert!(matches!(cfg.create_state(), Err(StateError::Hex(HexError::OddLength))));

    let mut bad = host_entry("a", 1);
    bad.private_secret = "00".to_string();
    let cfg = LanTunConfig { host_tunnels: vec![bad], client_tunnels: vec![] };
    match cfg.create_state() {
        Err(StateError::Message(m)) => assert_eq!(m, "Invalid private secret length"),
        other => panic!("unexpected {:?}", other),
    }

    let mut bad = client_entry("a", 1);
    bad.secret = "00".to_string();
    let cfg = LanTunConfig { host_tunnels: vec![], client_tunnels: vec![bad] };
    match cfg.create_state() {
        Err(StateError::Message(m)) => assert_eq!(m, "Invalid public secret length"),
        other => panic!("unexpected {:?}", other),
    }

    let cfg = LanTunConfig {
        host_tunnels: vec![],
        client_tunnels: vec![client_entry("a", 1), client_entry("b", 1)],
    };
    assert!(matches!(
        cfg.create_state(),
        Err(StateError::Client(ClientError::TunnelAlreadyExists(_, TunnelProtocol::Udp)))
    ));
}

#[test]
fn engine_add_host() {
    let secret = lantun::cli::run::decode_secret_key(SECRET).unwrap();
    let cfg = LanTunConfig { host_tunnels: vec![host_entry("z", 1)], client_tunnels: vec![] };
    match create_host(cfg, LOCAL, TunnelProtocol::Tcp, "mc".to_string(), secret) {
        Outcome::Save { config, output } => {
            assert_eq!(config.host_tunnels[0].name, "mc");
            assert_eq!(config.host_tunnels[0].private_secret, SECRET);
            assert_eq!(config.host_tunnels[0].public_secret, PUBLIC);
            assert_eq!(
                output,
                format!(
                    "Tunnel \"mc\" with local addr 127.0.0.1:25565/tcp created.\nThe public secret is \"{}\"\n\nTo add a client tunnel on the client side, use:\n  lantun add-client {} 127.0.0.1:25565 tcp <name>\n",
                    PUBLIC, PUBLIC
                )
            );
        }
        other => panic!("unexpected {:?}", other),
    }
    let cfg = LanTunConfig { host_tunnels: vec![host_entry("z", 25565)], client_tunnels: vec![] };
    let action = Action::CreateHostTunnel {
        local: LOCAL,
        protocol: TunnelProtocol::Tcp,
        name: "other".to_string(),
    };
    assert!(matches!(run_action(Some(action), cfg), Outcome::Taken));
}

#[test]
fn engine_add_client() {
    let upper = PUBLIC.to_uppercase();
    match create_client(
        LanTunConfig::default(),
        upper,
        LOCAL,
        TunnelProtocol::Udp,
        "c".to_string(),
    ) {
        Outcome::Save { config, output } => {
            assert_eq!(config.client_tunnels[0].secret, PUBLIC);
            assert_eq!(output, "Client tunnel \"c\" with local addr 127.0.0.1:25565/udp created.\n");
        }
        other => panic!("unexpected {:?}", other),
    }
    match create_client(
        LanTunConfig::default(),
        "nope".to_string(),
        LOCAL,
        TunnelProtocol::Udp,
        "c".to_string(),
    ) {
        Outcome::Fail(m) => assert_eq!(m, "Invalid secret format. It should be a hex string."),
        other => panic!("unexpected {:?}", other),
    }
    let cfg = LanTunConfig { host_tunnels: vec![], client_tunnels: vec![client_entry("z", 25565)] };
    assert!(matches!(
        create_client(cfg, PUBLIC.to_string(), LOCAL, TunnelProtocol::Udp, "c".to_string()),
        Outcome::Taken
    ));
}

#[test]
fn engine_list_and_remove() {
    let cfg = LanTunConfig {
        host_tunnels: vec![host_entry("x", 1), host_entry("x", 2)],
        client_tunnels: vec![client_entry("x", 3), client_entry("y", 4)],
    };
    assert_eq!(
        list(&cfg),
        format!(
            "Host Tunnels:\n  x: 127.0.0.1:1/tcp: {p}\n  x: 127.0.0.1:2/tcp: {p}\n\nClient Tunnels:\n  x: 127.0.0.1:3 -> {p}\n  y: 127.0.0.1:4 -> {p}\n",
            p = PUBLIC
        )
    );
    let cfg = match remove(cfg, "x") {
        Outcome::Save { config, output } => {
            assert_eq!(output, "Removed host tunnel \"x\"\n");
            assert_eq!(config.host_tunnels.len(), 1);
            assert_eq!(config.host_tunnels[0].local.to_text(), "127.0.0.1:2");
            assert_eq!(config.client_tunnels.len(), 2);
            config
        }
        other => panic!("unexpected {:?}", other),
    };
    let cfg = match remove(cfg, "y") {
        Outcome::Save { config, output } => {
            assert_eq!(output, "Removed client tunnel \"y\"\n");
            config
        }
        other => panic!("unexpected {:?}", other),
    };
    match remove(cfg, "y") {
        Outcome::Print(output) => assert_eq!(output, "Tunnel \"y\" not found\n"),
        other => panic!("unexpected {:?}", other),
    }
}

#[test]
fn engine_without_tunnels() {
    match run_action(None, LanTunConfig::default()) {
        Outcome::Print(output) => assert_eq!(
            output,
            "No tunnels found. Use `lantun add-host` or `lantun add-client` to create a tunnel.\n"
        ),
        other => panic!("unexpected {:?}", other),
    }
    match log_setup(None, None) {
        lantun::cli::run::LogSetup::Filter(f) => {
            assert_eq!(f, "lantun_core=info,lantun_cli=info")
        }
        other => panic!("unexpected {:?}", other),
    }
}

#[test]
fn seconds_since_the_epoch() {
    assert_eq!(epoch_secs(Some(Duration { nanos: 20_999_999_999 })), Some(20));
    assert_eq!(epoch_secs(Some(Duration::from_secs(u64::MAX))), Some(u64::MAX));
    assert_eq!(epoch_secs(None), None);
}

#[test]
fn a_client_without_its_host_is_not_running() {
    let key = *gen_secret().public().as_bytes();
    let mut state = ClientState::new();
    let t = state.create_tunnel(LOCAL, "c".to_string(), key, TunnelProtocol::Tcp).unwrap();
    t.connected();
    t.stream_opened(connection(0));
    assert_eq!(t.num_active_connections(), 1);
    t.host_gone();
    assert!(!t.is_running());
    assert_eq!(t.num_active_connections(), 0);
    assert_eq!(t.disconnect(), Err(ClientError::NotConnected));
    assert_eq!(t.connect().unwrap().as_bytes(), &key);
    t.connected();
    assert!(t.is_running());
    assert_eq!(t.name(), "c");
    assert_eq!(t.addr(), LOCAL);
}

#[test]
fn a_client_that_left_comes_back() {
    let mut state = HostState::new();
    let t = state.create_tunnel(LOCAL, "h".to_string(), [5; 32], TunnelProtocol::Tcp);
    t.opened();
    let a = gen_secret().public();
    let b = gen_secret().public();
    t.accept(AcceptEvent::Connected(a));
    t.accept(AcceptEvent::Connected(b));
    t.handle_connection(a, Client2HostControlMsg::ConnReq { local_addr: APP });
    assert_eq!(t.num_active_connections(), 1);
    t.client_gone(a);
    assert_eq!(t.num_clients(), 1);
    assert_eq!(t.num_active_connections(), 0);
    assert!(matches!(t.accept(AcceptEvent::Connected(b)), AcceptAction::Ignore));
    assert!(matches!(t.accept(AcceptEvent::Connected(a)), AcceptAction::Serve(_)));
    assert_eq!(t.num_clients(), 2);
}

#[test]
fn answers_go_to_the_application() {
    assert_eq!(Forwarder::new(connection(0), 7).destination(), APP);
}

#[test]
fn a_host_without_its_endpoint_is_not_running() {
    let mut state = HostState::new();
    let t = state.create_tunnel(LOCAL, "h".to_string(), [5; 32], TunnelProtocol::Tcp);
    t.opened();
    t.accept(AcceptEvent::Connected(gen_secret().public()));
    t.endpoint_closed();
    assert!(!t.is_running());
    assert_eq!(t.num_clients(), 0);
    assert_eq!(t.start().unwrap().to_bytes(), [5; 32]);
    assert_eq!(t.name(), "h");
}

#[test]
fn a_connection_that_never_opened_is_not_listed() {
    let key = *gen_secret().public().as_bytes();
    let mut state = ClientState::new();
    let t = state.create_tunnel(LOCAL, "c".to_string(), key, TunnelProtocol::Udp).unwrap();
    t.connected();
    assert!(matches!(t.listen(ListenEvent::Local(APP)), ListenAction::Forward { .. }));
    assert_eq!(t.num_active_connections(), 0);
    assert!(matches!(t.listen(ListenEvent::Local(APP)), ListenAction::Forward { .. }));
    t.stream_opened(connection(0));
    assert_eq!(t.listen(ListenEvent::Local(APP)), ListenAction::Next);
}

#[test]
fn traffic_shows_in_the_list() {
    let mut list: Table<SocketAddr, LocalClientConnection> = Table::new();
    list.insert(APP, connection(0));
    let mut f = Forwarder::start_on_client(connection(0), &mut list, 5);
    assert_eq!(list.get(APP).unwrap().last_active, 5);
    bi_udp_client(&mut f, &mut list, Side::Local, PumpEvent::Read(Some(vec![1])), 7);
    assert_eq!(list.get(APP).unwrap().last_active, 7);
    bi_tcp_stream_client(&mut f, &mut list, Side::Tunnel, PumpEvent::Slept, 9);
    assert_eq!(list.get(APP).unwrap().last_active, 7);

    let mut state = HostState::new();
    let t = state.create_tunnel(LOCAL, "h".to_string(), [5; 32], TunnelProtocol::Tcp);
    t.opened();
    let peer = gen_secret().public();
    t.accept(AcceptEvent::Connected(peer));
    let plan = t.handle_connection(peer, Client2HostControlMsg::ConnReq { local_addr: APP });
    let client = t.running_props.as_mut().unwrap().tunnel_clients.get_mut(peer).unwrap();
    assert_eq!(client.local_connections.get(ANY).unwrap().last_active, 0);
    let mut f = Forwarder::start_on_host(plan.connection, client, 5);
    assert_eq!(client.local_connections.get(ANY).unwrap().last_active, 5);
    bi_tcp_stream_host(&mut f, client, Side::Tunnel, PumpEvent::Read(Some(vec![1])), 8);
    assert_eq!(client.local_connections.get(ANY).unwrap().last_active, 8);
    bi_udp_host(&mut f, client, Side::Local, PumpEvent::Stop(true), 9);
    bi_udp_host(&mut f, client, Side::Tunnel, PumpEvent::Stop(true), 9);
    assert!(client.local_connections.get(ANY).is_none());
}

#[test]
fn another_connection_under_the_key_is_left_alone() {
    let mut list: Table<SocketAddr, LocalClientConnection> = Table::new();
    let other = LocalClientConnection {
        client_local_addr: APP,
        client_virtual_addr: LOCAL,
        last_active: 3,
    };
    list.insert(APP, other);
    let mut f = Forwarder::new(connection(0), 5);
    bi_tcp_stream_client(&mut f, &mut list, Side::Local, PumpEvent::Read(Some(vec![1])), 7);
    assert_eq!(*list.get(APP).unwrap(), other);
}
