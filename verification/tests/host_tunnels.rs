use lantun::addr::{SocketAddr, SocketAddrV4};
use lantun::error::Error;
use lantun::key::{gen_secret, PublicKey, SecretKey};
use lantun::protocol::{ConnReq, Hello};
use lantun::tunnel::host::{
    AcceptAction, AcceptEvent, BackendPlan, HostTunnel, PeerAction, PeerEvent, PeerPhase,
    PeerSession, HELLO_TIMEOUT_SECS, VERSION_MISMATCH_CODE, VERSION_MISMATCH_WORDS,
};
use lantun::tunnel::{RelayMode, TunnelProtocol};

const BACKEND: SocketAddr = SocketAddr::V4 { ip: 0x7f000001, port: 25565 };
const CLIENT: SocketAddr = SocketAddr::V4 { ip: 0x0a000001, port: 1 };

fn host() -> HostTunnel {
    HostTunnel::builder()
        .secret(SecretKey::from_bytes(&[1; 32]))
        .forward_to(BACKEND)
        .protocol(TunnelProtocol::Tcp)
        .start()
        .unwrap()
        .0
}

fn peer() -> PublicKey {
    gen_secret().public()
}

fn hello(version: u16) -> PeerEvent {
    PeerEvent::HelloReceived(Hello { version, capabilities: 0 })
}

fn served(host: &mut HostTunnel, key: PublicKey) -> (PeerSession, u64) {
    let mut s = PeerSession::accept(Ok(key)).unwrap();
    assert_eq!(host.handle_peer(&mut s, hello(2)), PeerAction::Serve);
    match s.phase {
        PeerPhase::Serving { id } => (s, id),
        other => panic!("unexpected {:?}", other),
    }
}

#[test]
fn host_builder_errors() {
    assert_eq!(
        HostTunnel::builder().start().unwrap_err(),
        Error::Protocol("secret required".to_string())
    );
    assert_eq!(
        HostTunnel::builder().secret(gen_secret()).start().unwrap_err(),
        Error::Protocol("forward_to required".to_string())
    );
    assert_eq!(
        HostTunnel::builder().secret(gen_secret()).forward_to(BACKEND).start().unwrap_err(),
        Error::Protocol("protocol required".to_string())
    );
}

#[test]
fn host_builder_settings() {
    let secret = SecretKey::from_bytes(&[9; 32]);
    let (t, e) = HostTunnel::builder()
        .secret(secret)
        .forward_to(BACKEND)
        .protocol(TunnelProtocol::Udp)
        .name("my-minecraft".to_string())
        .relay(RelayMode::Staging)
        .discovery(false)
        .bind_addr_v4(SocketAddrV4 { ip: 0x7f000001, port: 7 })
        .start()
        .unwrap();
    assert_eq!(t.name(), "my-minecraft");
    assert_eq!(t.public_key().as_bytes(), secret.public().as_bytes());
    assert_eq!(t.forward_to(), BACKEND);
    assert_eq!(t.protocol(), TunnelProtocol::Udp);
    assert_eq!(t.connected_peers(), 0);
    assert_eq!(t.active_connections(), 0);
    assert!(!t.wait_dead());
    assert_eq!(e.relay, RelayMode::Staging);
    assert!(!e.discovery);
    assert_eq!(e.bind_v4, Some(SocketAddrV4 { ip: 0x7f000001, port: 7 }));
    assert_eq!(e.secret.to_bytes(), [9; 32]);
    assert_eq!(HostTunnel::builder().name, "host");
}

/// After a client disconnects its slot is free, and a new client is served.
#[test]
fn host_frees_the_peer_slot() {
    let mut t = host();
    for _ in 0..3 {
        let (mut s, _) = served(&mut t, peer());
        assert_eq!(t.connected_peers(), 1);
        assert_eq!(t.handle_peer(&mut s, PeerEvent::Closed), PeerAction::End);
        assert_eq!(s.phase, PeerPhase::Ended);
        assert_eq!(t.connected_peers(), 0);
    }
}

#[test]
fn several_peers_at_once() {
    let mut t = host();
    let mut sessions: Vec<(PeerSession, u64)> = (0..4).map(|_| served(&mut t, peer())).collect();
    assert_eq!(t.connected_peers(), 4);
    for (s, id) in &sessions {
        t.stream_started(s.key, *id);
        t.stream_started(s.key, *id);
    }
    assert_eq!(t.active_connections(), 8);
    t.stream_finished(sessions[0].0.key, sessions[0].1);
    assert_eq!(t.active_connections(), 7);
    let (mut first, _) = sessions.remove(0);
    t.handle_peer(&mut first, PeerEvent::Cancelled);
    assert_eq!(t.connected_peers(), 3);
    assert_eq!(t.active_connections(), 6);
}

#[test]
fn an_old_session_does_not_take_the_new_slot() {
    let mut t = host();
    let key = peer();
    let (mut old, old_id) = served(&mut t, key);
    t.stream_started(key, old_id);
    let (mut new, new_id) = served(&mut t, key);
    assert_ne!(old_id, new_id);
    assert_eq!(t.connected_peers(), 1);
    assert_eq!(t.active_connections(), 0);
    t.handle_peer(&mut old, PeerEvent::Closed);
    assert_eq!(t.connected_peers(), 1);
    t.stream_finished(key, old_id);
    assert_eq!(t.active_connections(), 0);
    t.stream_started(key, new_id);
    assert_eq!(t.active_connections(), 1);
    t.handle_peer(&mut new, PeerEvent::Closed);
    assert_eq!(t.connected_peers(), 0);
}

#[test]
fn another_version_is_turned_away() {
    let mut t = host();
    let mut s = PeerSession::accept(Ok(peer())).unwrap();
    assert_eq!(
        t.handle_peer(&mut s, hello(1)),
        PeerAction::Reject(Error::VersionMismatch { ours: 2, peer: 1 })
    );
    assert_eq!(t.connected_peers(), 0);
    assert_eq!(VERSION_MISMATCH_CODE, 1);
    assert_eq!(VERSION_MISMATCH_WORDS, "version mismatch");
}

#[test]
fn a_peer_that_does_not_greet() {
    let mut t = host();
    let mut s = PeerSession::accept(Ok(peer())).unwrap();
    assert_eq!(
        t.handle_peer(&mut s, PeerEvent::HelloTimedOut),
        PeerAction::Fail(Error::Protocol("hello timed out".to_string()))
    );
    assert_eq!(HELLO_TIMEOUT_SECS, 10);
    let mut s = PeerSession::accept(Ok(peer())).unwrap();
    assert_eq!(
        t.handle_peer(&mut s, PeerEvent::HelloFailed(Error::NotRunning)),
        PeerAction::Fail(Error::NotRunning)
    );
    assert_eq!(t.connected_peers(), 0);
    assert_eq!(
        PeerSession::accept(Err("unknown".to_string())).unwrap_err(),
        Error::Protocol("no remote node id: unknown".to_string())
    );
}

#[test]
fn streams_go_to_the_backend() {
    let mut t = host();
    let (mut s, _) = served(&mut t, peer());
    let req = ConnReq { client_local_addr: CLIENT };
    assert_eq!(
        t.handle_peer(&mut s, PeerEvent::Requested(req)),
        PeerAction::Forward(BackendPlan {
            protocol: TunnelProtocol::Tcp,
            client: CLIENT,
            bind: SocketAddr::V4 { ip: 0, port: 0 },
            connect: BACKEND,
        })
    );
    assert_eq!(
        t.handle_peer(&mut s, PeerEvent::StreamFailed(Error::Shutdown)),
        PeerAction::Fail(Error::Shutdown)
    );
    assert_eq!(t.connected_peers(), 0);
}

#[test]
fn the_accept_loop() {
    let mut t = host();
    assert_eq!(t.accept_loop(AcceptEvent::Incoming), AcceptAction::Serve);
    assert_eq!(t.accept_loop(AcceptEvent::EndpointClosed), AcceptAction::Stop);
    assert!(t.wait_dead());

    let mut t = host();
    t.shutdown();
    assert_eq!(t.accept_loop(AcceptEvent::EndpointClosed), AcceptAction::Stop);
    assert_eq!(t.accept_loop(AcceptEvent::Cancelled), AcceptAction::Stop);
    assert!(!t.wait_dead());
}
