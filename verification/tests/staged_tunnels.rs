use lantun::addr::SocketAddr;
use lantun::error::{IoError, IoErrorKind};
use lantun::key::gen_secret;
use lantun::staged::client::{ClientError, ClientTunnel, LocalAction, LocalConnection, LocalEvent};
use lantun::staged::common::{
    FilteredUdpReader, FilteredUdpWriter, PollAction, PollEvent, Protocol, TcpStreamOrUdpSocket,
    UdpReader, UdpWriter,
};
use lantun::staged::config::{ClientTunnelConfig, HostTunnelConfig, LantunConfig};
use lantun::staged::forwarder::{forwarder, ForwardAction, ForwardEvent, ForwarderConfig};
use lantun::staged::host::{ClientConnection, HostError, HostTunnel};
use lantun::staged::state::{add_client_tunnel, create_host_tunnel, State};

const ADDR: SocketAddr = SocketAddr::V4 { ip: 0x7f000001, port: 9 };
const OTHER: SocketAddr = SocketAddr::V4 { ip: 0x7f000001, port: 10 };

fn not_ready() -> IoError {
    IoError { kind: IoErrorKind::WouldBlock, message: "not ready".to_string() }
}

fn broken() -> IoError {
    IoError { kind: IoErrorKind::Other, message: "broken".to_string() }
}

#[test]
fn staged_protocol_names() {
    assert_eq!(Protocol::from_str("tcp"), Ok(Protocol::Tcp));
    assert_eq!(Protocol::from_str("udp"), Ok(Protocol::Udp));
    assert_eq!(Protocol::from_str("TCP"), Err("Unknown protocol: TCP".to_string()));
    assert_eq!(Protocol::Udp.to_text(), "udp");
}

#[test]
fn staged_host_from_start_to_stop() {
    let secret = gen_secret();
    let t = HostTunnel::new(Some("test-host".to_string()), secret, ADDR, Protocol::Tcp);
    assert_eq!(t.name().unwrap(), "test-host");
    assert_eq!(t.address(), ADDR);
    assert_eq!(t.protocol(), Protocol::Tcp);
    assert_eq!(t.secret().to_bytes(), secret.to_bytes());
    assert_eq!(t.public_key().as_bytes(), secret.public().as_bytes());
    let mut t = t.start::<u32>();
    assert_eq!(t.num_connections(), 0);
    let plan = ClientConnection::new(ADDR, Protocol::Tcp);
    assert_eq!(plan.client_addr, SocketAddr::V4 { ip: 0, port: 0 });
    assert_eq!(plan.virtual_addr, ADDR);
    assert_eq!(plan.opening, vec![0]);
    let first = t.next_session();
    assert_eq!(t.connected(&plan, first, 1), None);
    assert_eq!(t.num_connections(), 1);
    assert_eq!(t.connection_closed(ADDR, first), Some(1));
    assert_eq!(t.num_connections(), 0);
    let second = t.next_session();
    t.connected(&plan, second, 2);
    let third = t.next_session();
    assert_eq!(t.connected(&plan, third, 3), Some(2));
    assert_eq!(t.connection_closed(ADDR, second), None);
    assert_eq!(t.num_connections(), 1);
    let (t, rest) = t.stop();
    assert_eq!(rest.len(), 1);
    assert_eq!(rest.value_at(0).handle, 3);
    assert_eq!(t.address(), ADDR);
}

#[test]
fn staged_client_from_start_to_stop() {
    let key = gen_secret().public();
    let t = ClientTunnel::new(None, key, ADDR, Protocol::Tcp);
    assert!(t.name().is_none());
    assert_eq!(*t.address(), ADDR);
    assert_eq!(*t.protocol(), Protocol::Tcp);
    assert_eq!(t.host_public_key().as_bytes(), key.as_bytes());
    let mut t = t.start::<&str>();
    assert_eq!(t.connected(OTHER, "forwarder"), None);
    let (t, rest) = t.stop();
    assert_eq!(rest.len(), 1);
    assert_eq!(*t.address(), ADDR);
}

#[test]
fn setting_up_a_local_connection() {
    let (mut c, action) = LocalConnection::new(Protocol::Tcp);
    assert_eq!(action, LocalAction::AcceptLocal);
    assert_eq!(c.step(LocalEvent::Accepted(None)), LocalAction::AcceptLocal);
    assert_eq!(c.step(LocalEvent::Accepted(Some(OTHER))), LocalAction::AcceptStream);
    assert_eq!(c.step(LocalEvent::StreamAccepted(false)), LocalAction::AcceptLocal);
    assert_eq!(c.step(LocalEvent::Accepted(Some(ADDR))), LocalAction::AcceptStream);
    assert_eq!(c.step(LocalEvent::StreamAccepted(true)), LocalAction::ReadOpening);
    assert_eq!(c.step(LocalEvent::Opened(Ok(()))), LocalAction::Forward(ADDR));
    assert_eq!(c, LocalConnection::Done);

    let (mut c, _) = LocalConnection::new(Protocol::Tcp);
    c.step(LocalEvent::Accepted(Some(ADDR)));
    c.step(LocalEvent::StreamAccepted(true));
    assert_eq!(
        c.step(LocalEvent::Opened(Err("gone".to_string()))),
        LocalAction::Fail(ClientError::ReadExactError("gone".to_string()))
    );
}

#[test]
fn forwarding_both_ways() {
    let config = ForwarderConfig::default();
    assert_eq!(config.buffer_size, 65536);
    assert_eq!(config.timeout, None);
    assert_eq!(
        forwarder(&config, ForwardEvent::FromSocket(Ok(vec![1]))),
        ForwardAction::ToStream(vec![1])
    );
    assert_eq!(
        forwarder(&config, ForwardEvent::FromStream(Ok(vec![2]))),
        ForwardAction::ToSocket(vec![2])
    );
    for end in [
        ForwardEvent::FromSocket(Ok(vec![])),
        ForwardEvent::FromStream(Ok(vec![])),
        ForwardEvent::FromSocket(Err(broken())),
        ForwardEvent::FromStream(Err(broken())),
        ForwardEvent::WriteFailed(broken()),
    ] {
        assert_eq!(forwarder(&config, end), ForwardAction::Close);
    }
    assert_eq!(forwarder(&config, ForwardEvent::TimedOut), ForwardAction::Again);
    let timed = ForwarderConfig {
        buffer_size: 1,
        timeout: Some(lantun::duration::Duration::from_secs(1)),
    };
    assert_eq!(forwarder(&timed, ForwardEvent::TimedOut), ForwardAction::Close);
}

#[test]
fn filtered_reads() {
    let r = FilteredUdpReader { socket: (), client_addr: ADDR };
    assert_eq!(r.poll_read(PollEvent::Polled), PollAction::PeekSender);
    assert_eq!(r.poll_read(PollEvent::Sender(OTHER)), PollAction::WakeAndPend);
    assert_eq!(r.poll_read(PollEvent::Sender(ADDR)), PollAction::TryReceive);
    assert_eq!(r.poll_read(PollEvent::Received(vec![7])), PollAction::ReadDone(vec![7]));
    assert_eq!(r.poll_read(PollEvent::Failed(not_ready())), PollAction::WaitReadable);
    assert_eq!(r.poll_read(PollEvent::Failed(broken())), PollAction::Fail(broken()));
    assert_eq!(r.poll_read(PollEvent::NotReady), PollAction::Pend);
    assert_eq!(r.poll_read(PollEvent::Ready), PollAction::ReadDone(vec![]));
}

#[test]
fn plain_reads_and_writes() {
    let r = UdpReader { socket: () };
    assert_eq!(r.poll_read(PollEvent::Polled), PollAction::TryReceive);
    assert_eq!(r.poll_read(PollEvent::Received(vec![1])), PollAction::ReadDone(vec![1]));
    assert_eq!(
        r.poll_write(),
        PollAction::Fail(IoError {
            kind: IoErrorKind::Other,
            message: "UdpReader does not support write".to_string()
        })
    );
    let w = UdpWriter { socket: () };
    assert_eq!(w.poll_write(PollEvent::Polled), PollAction::TrySend(None));
    assert_eq!(w.poll_write(PollEvent::Sent(4)), PollAction::WriteDone(4));
    assert_eq!(w.poll_write(PollEvent::Failed(not_ready())), PollAction::WaitWritable(None));
    assert_eq!(w.poll_write(PollEvent::Waited(Ok(2))), PollAction::WriteDone(2));
    let f = FilteredUdpWriter { socket: (), client_addr: ADDR };
    assert_eq!(f.poll_write(PollEvent::Polled), PollAction::TrySend(Some(ADDR)));
    assert_eq!(f.poll_write(PollEvent::Failed(not_ready())), PollAction::WaitWritable(Some(ADDR)));
    assert_eq!(f.poll_write(PollEvent::Failed(broken())), PollAction::Fail(broken()));
    assert_eq!(f.poll_write(PollEvent::NotReady), PollAction::Pend);
    assert!(matches!(TcpStreamOrUdpSocket::<u8, u8>::from_tcp(1), TcpStreamOrUdpSocket::Tcp(1)));
    assert!(matches!(TcpStreamOrUdpSocket::<u8, u8>::from_udp(1), TcpStreamOrUdpSocket::Udp(1)));
}

#[test]
fn enabled_tunnels_are_to_start() {
    let key = gen_secret().public();
    let mut config = LantunConfig::default();
    create_host_tunnel(&mut config, Some("on".to_string()), gen_secret(), ADDR, Protocol::Tcp);
    config.host_tunnels.push(HostTunnelConfig {
        name: None,
        secret: gen_secret(),
        local_addr: OTHER,
        proto: Protocol::Udp,
        enabled: false,
    });
    add_client_tunnel(&mut config, None, key, OTHER, Protocol::Tcp);
    config.client_tunnels.push(ClientTunnelConfig {
        name: Some("off".to_string()),
        host_public: key,
        local_addr: ADDR,
        proto: Protocol::Tcp,
        enabled: false,
    });
    let state = State::from_config(&config);
    assert_eq!(state.active_host_tunnels.len(), 1);
    assert_eq!(state.active_host_tunnels[0].name().unwrap(), "on");
    assert_eq!(state.inactive_host_tunnels.len(), 1);
    assert_eq!(state.inactive_host_tunnels[0].address(), OTHER);
    assert_eq!(state.active_client_tunnels.len(), 1);
    assert_eq!(*state.active_client_tunnels[0].address(), OTHER);
    assert_eq!(state.inactive_client_tunnels[0].name().unwrap(), "off");
}

#[test]
fn staged_errors_in_words() {
    let m = || "x".to_string();
    assert_eq!(HostError::EndpointBindError(m()).to_text(), "Failed to bind iroh endpoint: x");
    assert_eq!(HostError::IoError(m()).to_text(), "IO error: x");
    assert_eq!(HostError::ConnectionError(m()).to_text(), "Connection error: x");
    assert_eq!(HostError::WriteError(m()).to_text(), "Write error: x");
    assert_eq!(ClientError::EndpointBindError(m()).to_text(), "Failed to bind iroh endpoint: x");
    assert_eq!(ClientError::FailedToConnect(m()).to_text(), "Failed to connect to host tunnel: x");
    assert_eq!(ClientError::IoError(m()).to_text(), "IO error: x");
    assert_eq!(ClientError::ConnectionError(m()).to_text(), "Connection error: x");
    assert_eq!(ClientError::ReadExactError(m()).to_text(), "Read exact error: x");
}
