use lantun::addr::SocketAddr;
use lantun::duration::Duration;
use lantun::error::Error;
use lantun::key::gen_secret;
use lantun::protocol::{read_frame, ConnReq, Hello, Progress};
use lantun::tunnel::client::{
    run_tcp_session, send_hello, ClientTunnel, CloseReason, ReconnectPolicy, SessionEvent,
    SuperviseAction, SuperviseEvent, TcpSessionAction, UdpSessionAction, UdpSessions,
};
use lantun::tunnel::{RelayMode, TunnelProtocol};

const BIND: SocketAddr = SocketAddr::V4 { ip: 0x7f000001, port: 0 };
const ACTUAL: SocketAddr = SocketAddr::V4 { ip: 0x7f000001, port: 3333 };

fn tunnel(policy: ReconnectPolicy) -> ClientTunnel {
    ClientTunnel::builder()
        .host_key(gen_secret().public())
        .bind(BIND)
        .protocol(TunnelProtocol::Tcp)
        .reconnect(policy)
        .name("orphan-client".to_string())
        .start()
        .unwrap()
        .started(ACTUAL)
}

fn policy(max_attempts: Option<u32>, initial: u64, max: u64) -> ReconnectPolicy {
    ReconnectPolicy {
        max_attempts,
        initial_backoff: Duration::from_millis(initial),
        max_backoff: Duration::from_millis(max),
    }
}

fn millis(n: u64) -> SuperviseAction {
    SuperviseAction::Sleep(Duration::from_millis(n))
}

#[test]
fn default_policy() {
    let p = ReconnectPolicy::default();
    assert_eq!(p.max_attempts, None);
    assert_eq!(p.initial_backoff, Duration::from_secs(1));
    assert_eq!(p.max_backoff, Duration::from_secs(60));
    let n = ReconnectPolicy::none();
    assert_eq!(n.max_attempts, Some(0));
    assert!(n.initial_backoff.is_zero());
    assert!(n.max_backoff.is_zero());
}

#[test]
fn client_builder_defaults() {
    let b = ClientTunnel::builder();
    assert_eq!(b.name, "client");
    assert_eq!(b.relay, RelayMode::Default);
    assert!(b.discovery);
    assert_eq!(b.reconnect, ReconnectPolicy::default());
}

#[test]
fn client_builder_errors() {
    let key = gen_secret().public();
    assert_eq!(
        ClientTunnel::builder().start().unwrap_err(),
        Error::Protocol("host required".to_string())
    );
    assert_eq!(
        ClientTunnel::builder().host_key(key).start().unwrap_err(),
        Error::Protocol("bind required".to_string())
    );
    assert_eq!(
        ClientTunnel::builder().host_key(key).bind(BIND).start().unwrap_err(),
        Error::Protocol("protocol required".to_string())
    );
}

#[test]
fn started_client() {
    let t = tunnel(ReconnectPolicy::none());
    assert_eq!(t.name(), "orphan-client");
    assert_eq!(t.bind(), ACTUAL);
    assert_eq!(t.protocol(), TunnelProtocol::Tcp);
    assert_eq!(t.active_connections(), 0);
    assert!(!t.is_connected());
}

#[test]
fn builder_settings_are_kept() {
    let plan = ClientTunnel::builder()
        .host_key(gen_secret().public())
        .bind(BIND)
        .protocol(TunnelProtocol::Udp)
        .relay(RelayMode::Disabled)
        .discovery(false)
        .start()
        .unwrap();
    assert_eq!(plan.relay, RelayMode::Disabled);
    assert!(!plan.discovery);
    assert_eq!(plan.protocol, TunnelProtocol::Udp);
    assert_eq!(plan.bind, BIND);
}

/// The supervisor keeps trying, with growing pauses, as long as nobody stops it.
#[test]
fn client_reconnect_policy_survives_an_unreachable_host() {
    let mut t = tunnel(policy(None, 50, 200));
    assert_eq!(t.supervise(SuperviseEvent::Begin), SuperviseAction::Bind);
    for pause in [50, 100, 200, 200, 200] {
        assert_eq!(t.supervise(SuperviseEvent::Bound), SuperviseAction::Connect);
        assert_eq!(t.supervise(SuperviseEvent::ConnectFailed), SuperviseAction::Close(None));
        assert_eq!(t.supervise(SuperviseEvent::Closed), millis(pause));
        assert!(!t.is_connected());
        assert_eq!(t.supervise(SuperviseEvent::Woke), SuperviseAction::Bind);
    }
    t.shutdown();
    assert_eq!(t.supervise(SuperviseEvent::BindFailed), SuperviseAction::Stop);
}

#[test]
fn a_session_starts_over() {
    let mut t = tunnel(policy(None, 100, 500));
    t.supervise(SuperviseEvent::Begin);
    assert_eq!(t.supervise(SuperviseEvent::BindFailed), millis(100));
    t.supervise(SuperviseEvent::Woke);
    assert_eq!(t.supervise(SuperviseEvent::BindFailed), millis(200));
    t.supervise(SuperviseEvent::Woke);
    t.supervise(SuperviseEvent::Bound);
    assert_eq!(t.supervise(SuperviseEvent::Connected), SuperviseAction::SendHello);
    assert_eq!(
        t.supervise(SuperviseEvent::HelloSent),
        SuperviseAction::RunSession(TunnelProtocol::Tcp)
    );
    assert!(t.is_connected());
    assert_eq!(
        t.supervise(SuperviseEvent::SessionEnded),
        SuperviseAction::Close(Some(CloseReason::SessionEnded))
    );
    assert!(!t.is_connected());
    assert_eq!(t.supervise(SuperviseEvent::Closed), millis(100));
    assert_eq!(t.supervise(SuperviseEvent::Woke), SuperviseAction::Bind);
}

#[test]
fn reconnection_disabled() {
    let mut t = tunnel(ReconnectPolicy::none());
    t.supervise(SuperviseEvent::Begin);
    assert_eq!(t.supervise(SuperviseEvent::BindFailed), SuperviseAction::Stop);
}

#[test]
fn a_limited_number_of_attempts() {
    let mut t = tunnel(policy(Some(2), 10, 1000));
    t.supervise(SuperviseEvent::Begin);
    assert_eq!(t.supervise(SuperviseEvent::BindFailed), millis(10));
    t.supervise(SuperviseEvent::Woke);
    assert_eq!(t.supervise(SuperviseEvent::BindFailed), millis(20));
    t.supervise(SuperviseEvent::Woke);
    assert_eq!(t.supervise(SuperviseEvent::BindFailed), SuperviseAction::Stop);
}

#[test]
fn hello_failure_is_told_to_the_host() {
    let mut t = tunnel(policy(None, 10, 10));
    t.supervise(SuperviseEvent::Begin);
    t.supervise(SuperviseEvent::Bound);
    t.supervise(SuperviseEvent::Connected);
    assert_eq!(
        t.supervise(SuperviseEvent::HelloFailed),
        SuperviseAction::Close(Some(CloseReason::HelloFailed))
    );
    assert_eq!(CloseReason::HelloFailed.code(), 1);
    assert_eq!(CloseReason::HelloFailed.words(), "hello failed");
    assert_eq!(CloseReason::Cancelled.code(), 0);
    assert_eq!(CloseReason::Cancelled.words(), "cancelled");
    assert_eq!(CloseReason::SessionEnded.words(), "session ended");
}

#[test]
fn shutdown_while_connecting() {
    let mut t = tunnel(policy(None, 10, 10));
    t.supervise(SuperviseEvent::Begin);
    t.supervise(SuperviseEvent::Bound);
    t.shutdown();
    assert_eq!(t.supervise(SuperviseEvent::Interrupted), SuperviseAction::Close(None));
    assert_eq!(t.supervise(SuperviseEvent::Closed), SuperviseAction::Stop);

    let mut t = tunnel(policy(None, 10, 10));
    t.supervise(SuperviseEvent::Begin);
    t.supervise(SuperviseEvent::Bound);
    t.supervise(SuperviseEvent::Connected);
    t.shutdown();
    assert_eq!(
        t.supervise(SuperviseEvent::Interrupted),
        SuperviseAction::Close(Some(CloseReason::Cancelled))
    );
    assert_eq!(t.supervise(SuperviseEvent::Closed), SuperviseAction::Stop);
}

#[test]
fn shutdown_before_the_first_attempt_and_while_asleep() {
    let mut t = tunnel(policy(None, 10, 10));
    t.shutdown();
    assert_eq!(t.supervise(SuperviseEvent::Begin), SuperviseAction::Stop);

    let mut t = tunnel(policy(None, 10, 10));
    t.supervise(SuperviseEvent::Begin);
    t.supervise(SuperviseEvent::BindFailed);
    t.shutdown();
    assert_eq!(t.supervise(SuperviseEvent::Woke), SuperviseAction::Stop);
}

#[test]
fn pauses_without_a_limit_or_a_beginning() {
    let p = policy(None, 30, 0);
    assert_eq!(p.sleep_backoff(p.initial_backoff), Duration::from_millis(30));
    let p = policy(None, 0, 30);
    assert_eq!(p.sleep_backoff(p.initial_backoff), Duration::from_millis(0));
    let p = policy(None, 100, 30);
    assert_eq!(p.sleep_backoff(p.initial_backoff), Duration::from_millis(30));
    let huge = ReconnectPolicy {
        max_attempts: None,
        initial_backoff: Duration { nanos: u128::MAX },
        max_backoff: Duration { nanos: u128::MAX },
    };
    assert_eq!(huge.sleep_backoff(huge.initial_backoff), Duration { nanos: u128::MAX });
}

#[test]
fn streams_are_counted() {
    let mut t = tunnel(ReconnectPolicy::none());
    t.stream_started();
    t.stream_started();
    assert_eq!(t.active_connections(), 2);
    t.stream_finished();
    assert_eq!(t.active_connections(), 1);
}

#[test]
fn the_greeting() {
    let bytes = send_hello().unwrap();
    assert_eq!(bytes, vec![0, 0, 0, 2, 2, 0]);
    assert_eq!(
        read_frame::<Hello>(&bytes, false),
        Ok(Progress::Ready(Hello { version: 2, capabilities: 0 }))
    );
}

#[test]
fn tcp_session_steps() {
    assert_eq!(run_tcp_session::<u8>(SessionEvent::Cancelled), TcpSessionAction::End);
    assert_eq!(run_tcp_session::<u8>(SessionEvent::Closed), TcpSessionAction::End);
    assert_eq!(
        run_tcp_session::<u8>(SessionEvent::LocalFailed),
        TcpSessionAction::Pause(Duration::from_millis(100))
    );
    assert_eq!(
        run_tcp_session::<u8>(SessionEvent::StreamFailed(Error::Shutdown)),
        TcpSessionAction::Fail(Error::Shutdown)
    );
    match run_tcp_session(SessionEvent::Local(ACTUAL, 9u8)) {
        TcpSessionAction::Forward { connection, request } => {
            assert_eq!(connection, 9);
            assert_eq!(
                read_frame::<ConnReq>(&request, false),
                Ok(Progress::Ready(ConnReq { client_local_addr: ACTUAL }))
            );
        }
        other => panic!("unexpected {:?}", other),
    }
}

#[test]
fn udp_session_per_source() {
    let a = SocketAddr::V4 { ip: 1, port: 1 };
    let b = SocketAddr::V4 { ip: 1, port: 2 };
    let mut s: UdpSessions<&str> = UdpSessions::new();
    match s.run_udp_session(SessionEvent::Local(a, vec![1])) {
        UdpSessionAction::Open { request, payload } => {
            assert_eq!(payload, vec![1]);
            assert_eq!(
                read_frame::<ConnReq>(&request, false),
                Ok(Progress::Ready(ConnReq { client_local_addr: a }))
            );
        }
        other => panic!("unexpected {:?}", other),
    }
    s.opened(a, "session a");
    s.opened(b, "session b");
    match s.run_udp_session(SessionEvent::Local(b, vec![2])) {
        UdpSessionAction::Deliver(h, payload) => {
            assert_eq!(*h, "session b");
            assert_eq!(payload, vec![2]);
        }
        other => panic!("unexpected {:?}", other),
    }
    s.closed(b);
    assert!(matches!(
        s.run_udp_session(SessionEvent::Local(b, vec![3])),
        UdpSessionAction::Open { .. }
    ));
    assert!(matches!(
        s.run_udp_session(SessionEvent::Local(a, vec![3])),
        UdpSessionAction::Deliver(_, _)
    ));
    assert!(matches!(s.run_udp_session(SessionEvent::Closed), UdpSessionAction::End));
    assert!(matches!(s.run_udp_session(SessionEvent::Cancelled), UdpSessionAction::End));
    assert!(matches!(s.run_udp_session(SessionEvent::LocalFailed), UdpSessionAction::Pause(_)));
    assert!(matches!(
        s.run_udp_session(SessionEvent::StreamFailed(Error::Shutdown)),
        UdpSessionAction::Fail(Error::Shutdown)
    ));
}

#[test]
fn protocol_names() {
    assert_eq!(TunnelProtocol::from_str("TcP"), Ok(TunnelProtocol::Tcp));
    assert_eq!(TunnelProtocol::from_str("udp"), Ok(TunnelProtocol::Udp));
    assert_eq!(TunnelProtocol::from_lowercase("udp"), Ok(TunnelProtocol::Udp));
    assert!(TunnelProtocol::from_lowercase("UDP").is_err());
    let e = TunnelProtocol::from_str("SCTP").unwrap_err();
    assert_eq!(e.message, "invalid protocol: sctp");
    assert_eq!(e.kind, lantun::error::IoErrorKind::InvalidInput);
    assert_eq!(TunnelProtocol::Tcp.to_text(), "tcp");
}
