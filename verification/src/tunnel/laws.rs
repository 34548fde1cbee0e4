//! What holds of the two sides of a tunnel, whatever happens to them.

use vstd::arithmetic::power2;
use vstd::prelude::*;
use vstd::utf8;

use crate::addr;
use crate::addr::SocketAddr;
use crate::duration::Duration;
use crate::error::{Error, IoError};
use crate::key;
use crate::key::PublicKey;
use crate::protocol;
use crate::protocol::{ConnReq, FrameState, Hello};
use crate::table;
use crate::tunnel::client;
use crate::tunnel::client::{
    ClientPlan, ClientTunnel, ClientTunnelBuilder, CloseReason, Phase, ReconnectPolicy,
    SessionEvent, SuperviseAction, SuperviseEvent, Supervisor, TcpSessionAction, UdpSessionAction,
    UdpSessions,
};
use crate::tunnel::host;
use crate::tunnel;
use crate::tunnel::host::{
    AcceptAction, AcceptEvent, BackendPlan, HostEndpoint, HostTunnel, HostTunnelBuilder, PeerAction,
    PeerEntry, PeerEvent, PeerPhase, PeerSession,
};
use crate::tunnel::TunnelProtocol;
use crate::wire::{DecodeError, Message};

verus! {

/// A supervisor begins without failures, with the initial pause before it and not connected; it
/// binds an endpoint at once, unless a shutdown has been asked for by then.
pub proof fn lemma_begins(policy: ReconnectPolicy, protocol: TunnelProtocol)
    ensures
        ({
            let s = Supervisor::fresh(policy);
            &&& s.phase is Fresh
            &&& s.attempt == 0
            &&& s.backoff == policy.initial_backoff
            &&& !s.connected
            &&& s.expects(SuperviseEvent::Begin)
            &&& s.after(policy, protocol, SuperviseEvent::Begin, false) == (
                Supervisor { phase: Phase::Binding, ..s },
                SuperviseAction::Bind,
            )
            &&& s.after(policy, protocol, SuperviseEvent::Begin, true) == (
                Supervisor { phase: Phase::Stopped, ..s },
                SuperviseAction::Stop,
            )
        }),
{
}

/// An attempt that failed is followed by another exactly where no shutdown has been asked for and
/// fewer attempts have failed in a row than the limit, if there is one. The pause before the next
/// attempt is the one that is due; nothing else changes.
pub proof fn lemma_retries_below_the_limit(s: Supervisor, policy: ReconnectPolicy, cancelled: bool)
    ensures
        s.fails(policy, cancelled) == if !cancelled && (policy.max_attempts is None || s.attempt
            < policy.max_attempts->0) {
            (Supervisor { phase: Phase::Sleeping, ..s }, SuperviseAction::Sleep(s.backoff))
        } else {
            (Supervisor { phase: Phase::Stopped, ..s }, SuperviseAction::Stop)
        },
{
}

proof fn lemma_sleeps_below_the_limit(
    policy: ReconnectPolicy,
    protocol: TunnelProtocol,
    events: Seq<(SuperviseEvent, bool)>,
    max: u32,
)
    requires
        client::possible(policy, protocol, events),
        policy.max_attempts == Some(max),
    ensures
        client::failures_in_row(events) <= max,
        client::state_after(policy, protocol, events).phase is Sleeping
            ==> client::failures_in_row(events) < max,
    decreases events.len(),
{
    if events.len() > 0 {
        let before = events.drop_last();
        lemma_sleeps_below_the_limit(policy, protocol, before, max);
        client::lemma_failures_are_counted(policy, protocol, before);
    }
}

/// Whatever happens, no more attempts follow a failure than the limit allows before there is a
/// session again.
pub proof fn lemma_retries_stay_within_the_limit(
    policy: ReconnectPolicy,
    protocol: TunnelProtocol,
    events: Seq<(SuperviseEvent, bool)>,
    max: u32,
)
    requires
        client::possible(policy, protocol, events),
        policy.max_attempts == Some(max),
    ensures
        client::failures_in_row(events) <= max,
{
    lemma_sleeps_below_the_limit(policy, protocol, events, max);
}

/// The events of a tunnel whose endpoint cannot be bound, again and again: so many attempts that
/// each failed and were followed by another.
pub open spec fn unbindable(attempts: nat) -> Seq<(SuperviseEvent, bool)>
    decreases attempts,
{
    if attempts == 0 {
        seq![(SuperviseEvent::Begin, false)]
    } else {
        unbindable((attempts - 1) as nat).push((SuperviseEvent::BindFailed, false)).push(
            (SuperviseEvent::Woke, false),
        )
    }
}

/// All the attempts that the limit allows are made: after fewer failures than the limit, another
/// attempt follows, and after as many as the limit, the tunnel stops.
pub proof fn lemma_every_allowed_retry_is_made(
    policy: ReconnectPolicy,
    protocol: TunnelProtocol,
    attempts: nat,
)
    requires
        policy.max_attempts is None || attempts <= policy.max_attempts->0,
    ensures
        client::possible(policy, protocol, unbindable(attempts)),
        client::failures_in_row(unbindable(attempts)) == attempts,
        ({
            let s = client::state_after(policy, protocol, unbindable(attempts));
            let (t, a) = s.after(policy, protocol, SuperviseEvent::BindFailed, false);
            &&& s.phase is Binding
            &&& if policy.max_attempts is None || attempts < policy.max_attempts->0 {
                a is Sleep && t.phase is Sleeping
            } else {
                a is Stop && t.phase is Stopped
            }
        }),
    decreases attempts,
{
    if attempts == 0 {
        let events = unbindable(0);
        assert(events.drop_last() =~= Seq::<(SuperviseEvent, bool)>::empty());
        assert(client::state_after(policy, protocol, events.drop_last()) == Supervisor::fresh(
            policy,
        ));
        assert(client::possible(policy, protocol, events.drop_last()));
        assert(client::failures_in_row(events.drop_last()) == 0);
        assert(events.last() == (SuperviseEvent::Begin, false));
    } else {
        let before = unbindable((attempts - 1) as nat);
        lemma_every_allowed_retry_is_made(policy, protocol, (attempts - 1) as nat);
        let failed = before.push((SuperviseEvent::BindFailed, false));
        let events = failed.push((SuperviseEvent::Woke, false));
        assert(failed.drop_last() =~= before);
        assert(events.drop_last() =~= failed);
        assert(failed.last() == (SuperviseEvent::BindFailed, false));
        assert(events.last() == (SuperviseEvent::Woke, false));
        assert(client::possible(policy, protocol, failed));
        assert(client::failures_in_row(failed) == client::failures_in_row(before));
        assert(client::possible(policy, protocol, events));
        client::lemma_failures_are_counted(policy, protocol, events);
    }
}

/// Whatever has happened, a pause is the initial one where no attempt has failed since the last
/// session; after some that have, it is the initial one doubled as often, up to the limit.
pub proof fn lemma_pauses_double(
    policy: ReconnectPolicy,
    protocol: TunnelProtocol,
    events: Seq<(SuperviseEvent, bool)>,
    event: SuperviseEvent,
    cancelled: bool,
)
    requires
        client::possible(policy, protocol, events.push((event, cancelled))),
        policy.initial_backoff.nanos > 0,
        policy.max_backoff.nanos > 0,
    ensures
        ({
            let n = client::failures_in_row(events);
            let s = client::state_after(policy, protocol, events);
            s.after(policy, protocol, event, cancelled).1 matches SuperviseAction::Sleep(d) ==> {
                let grown = policy.initial_backoff.nanos * power2::pow2(n);
                if n == 0 {
                    d == policy.initial_backoff
                } else if grown <= policy.max_backoff.nanos {
                    d.nanos == grown
                } else {
                    d.nanos == policy.max_backoff.nanos
                }
            }
        }),
{
    client::lemma_next_step_by_failures(policy, protocol, events, event, cancelled);
    policy.lemma_backoff_doubles(client::failures_in_row(events));
}

/// An attempt goes through its steps in order: bind, connect, greet, and forward traffic of the
/// tunnel's protocol; it counts as connected from then to the end of the session.
pub proof fn lemma_attempt_takes_its_steps(
    s: Supervisor,
    policy: ReconnectPolicy,
    protocol: TunnelProtocol,
    cancelled: bool,
)
    requires
        s.phase is Binding,
        s.wf(),
    ensures
        ({
            let (c, a) = s.after(policy, protocol, SuperviseEvent::Bound, cancelled);
            let (g, b) = c.after(policy, protocol, SuperviseEvent::Connected, cancelled);
            let (r, d) = g.after(policy, protocol, SuperviseEvent::HelloSent, cancelled);
            let (e, f) = r.after(policy, protocol, SuperviseEvent::SessionEnded, cancelled);
            &&& s.expects(SuperviseEvent::Bound)
            &&& a is Connect && !c.connected
            &&& c.expects(SuperviseEvent::Connected)
            &&& b is SendHello && !g.connected
            &&& g.expects(SuperviseEvent::HelloSent)
            &&& d == SuperviseAction::RunSession(protocol) && r.connected && r.attempt == 0
                && r.backoff == policy.initial_backoff
            &&& r.expects(SuperviseEvent::SessionEnded)
            &&& f == SuperviseAction::Close(Some(CloseReason::SessionEnded)) && !e.connected
            &&& e.expects(SuperviseEvent::Closed)
            &&& c.attempt == s.attempt && c.backoff == s.backoff
            &&& g.attempt == s.attempt && g.backoff == s.backoff
        }),
{
}

/// A shutdown that interrupts an attempt closes what is open, a connection with the word for it, and
/// then the tunnel stops.
pub proof fn lemma_interrupted_attempt_stops(
    s: Supervisor,
    policy: ReconnectPolicy,
    protocol: TunnelProtocol,
    cancelled: bool,
)
    requires
        s.expects(SuperviseEvent::Interrupted),
        s.wf(),
    ensures
        ({
            let (c, a) = s.after(policy, protocol, SuperviseEvent::Interrupted, cancelled);
            let (e, b) = c.after(policy, protocol, SuperviseEvent::Closed, cancelled);
            &&& s.phase is Connecting ==> a == SuperviseAction::Close(None)
            &&& s.phase is Greeting ==> a == SuperviseAction::Close(Some(CloseReason::Cancelled))
            &&& c.expects(SuperviseEvent::Closed)
            &&& b is Stop
            &&& e.phase is Stopped
        }),
{
}

/// After a pause the next attempt begins with one failure more behind it.
pub proof fn lemma_pause_counts_one_failure(
    s: Supervisor,
    policy: ReconnectPolicy,
    protocol: TunnelProtocol,
)
    requires
        s.phase is Sleeping,
        s.attempt < u32::MAX,
    ensures
        ({
            let (t, a) = s.after(policy, protocol, SuperviseEvent::Woke, false);
            &&& a is Bind
            &&& t.phase is Binding
            &&& t.attempt == s.attempt + 1
        }),
{
}

/// The request that announces a connection is read by the host as the address that the connection
/// came from; an IPv6 address comes without flow label and scope.
pub proof fn lemma_request_names_its_source(source: SocketAddr)
    ensures
        ({
            let data = (ConnReq { client_local_addr: source }).wire();
            &&& protocol::frame_state(protocol::framed(data)) == FrameState::Full(data)
            &&& ConnReq::read(data) matches Ok(req) && match source {
                SocketAddr::V4 { ip, port } => req.client_local_addr == source,
                SocketAddr::V6 { ip, port, flowinfo, scope_id } => req.client_local_addr == (
                SocketAddr::V6 { ip, port, flowinfo: 0, scope_id: 0 }),
            }
        }),
{
    let req = ConnReq { client_local_addr: source };
    protocol::lemma_messages_fit(Hello { version: 0, capabilities: 0 }, req);
    protocol::lemma_message_roundtrip(req);
}

/// A greeting is read by the host as it was sent, in particular in the version that it was sent in.
pub proof fn lemma_greeting_is_heard(hello: Hello)
    ensures
        protocol::frame_state(protocol::framed(hello.wire())) == FrameState::Full(hello.wire()),
        Hello::read(hello.wire()) == Ok::<Hello, DecodeError>(hello),
{
    protocol::lemma_messages_fit(
        hello,
        ConnReq { client_local_addr: SocketAddr::V4 { ip: 0, port: 0 } },
    );
    protocol::lemma_message_roundtrip(hello);
}

/// A peer that registers is listed with no open stream, in place of what was listed for it before;
/// all others stay as they are.
pub proof fn lemma_registered_without_streams(
    peers: Map<PublicKey, PeerEntry>,
    key: PublicKey,
    id: u64,
)
    ensures
        host::registered(peers, key, id).contains_key(key),
        host::registered(peers, key, id)[key].id == id,
        host::registered(peers, key, id)[key].active == 0,
        host::registered(peers, key, id).remove(key) == peers.remove(key),
{
    assert(host::registered(peers, key, id).remove(key) =~= peers.remove(key));
}

/// The end of a session takes its peer off the list where that session registered it, and changes
/// nothing else.
pub proof fn lemma_ended_session_is_taken_off(
    peers: Map<PublicKey, PeerEntry>,
    key: PublicKey,
    id: u64,
)
    ensures
        peers.contains_key(key) && peers[key].id == id ==> host::unregistered(peers, key, id)
            == peers.remove(key),
        !peers.contains_key(key) || peers[key].id != id ==> host::unregistered(peers, key, id)
            == peers,
{
}

/// A stream that is opened counts one more for its peer, one that is closed counts one less, as long
/// as its session is the one that registered the peer; the session stays the same, and so does every
/// other peer.
pub proof fn lemma_stream_counts_one(peers: Map<PublicKey, PeerEntry>, key: PublicKey, id: u64)
    ensures
        peers.contains_key(key) && peers[key].id == id ==> {
            let up = host::counted(peers, key, id, true);
            let down = host::counted(peers, key, id, false);
            &&& up.dom() == peers.dom()
            &&& up[key].id == id
            &&& peers[key].active < usize::MAX ==> up[key].active == peers[key].active + 1
            &&& up.remove(key) == peers.remove(key)
            &&& down.dom() == peers.dom()
            &&& down[key].id == id
            &&& peers[key].active > 0 ==> down[key].active == peers[key].active - 1
            &&& down.remove(key) == peers.remove(key)
        },
        !peers.contains_key(key) || peers[key].id != id ==> host::counted(peers, key, id, true)
            == peers && host::counted(peers, key, id, false) == peers,
{
    if peers.contains_key(key) && peers[key].id == id {
        assert(host::counted(peers, key, id, true).dom() =~= peers.dom());
        assert(host::counted(peers, key, id, false).dom() =~= peers.dom());
        assert(host::counted(peers, key, id, true).remove(key) =~= peers.remove(key));
        assert(host::counted(peers, key, id, false).remove(key) =~= peers.remove(key));
    }
}

/// The streams of a tunnel are those of all its peers together: none without peers, one more with
/// each that is opened, one less with each that is closed; and a peer that goes takes its streams
/// with it.
pub proof fn lemma_open_streams_add_up(peers: Map<PublicKey, PeerEntry>, key: PublicKey, id: u64)
    requires
        peers.dom().finite(),
    ensures
        host::open_streams(Map::empty()) == 0,
        peers.contains_key(key) ==> host::open_streams(peers) == peers[key].active
            + host::open_streams(peers.remove(key)),
        peers.contains_key(key) && peers[key].id == id && peers[key].active < usize::MAX
            ==> host::open_streams(host::counted(peers, key, id, true)) == host::open_streams(peers)
            + 1,
        peers.contains_key(key) && peers[key].id == id && peers[key].active > 0
            ==> host::open_streams(host::counted(peers, key, id, false)) == host::open_streams(
            peers,
        ) - 1,
        host::open_streams(host::registered(peers, key, id)) == host::open_streams(
            peers.remove(key),
        ),
{
    let f = |p: PeerEntry| p.active as nat;
    assert(Map::<PublicKey, PeerEntry>::empty().dom() =~= Set::empty());
    lemma_registered_without_streams(peers, key, id);
    let new = host::registered(peers, key, id);
    assert(new.dom() =~= peers.dom().insert(key));
    table::lemma_map_total_remove(new, f, key);
    if peers.contains_key(key) {
        table::lemma_map_total_remove(peers, f, key);
        if peers[key].id == id {
            lemma_stream_counts_one(peers, key, id);
            table::lemma_map_total_remove(host::counted(peers, key, id, true), f, key);
            table::lemma_map_total_remove(host::counted(peers, key, id, false), f, key);
        }
    }
}

/// A backend is reached from an address of its own family, at any port.
pub proof fn lemma_backend_is_reached_in_its_family(backend: SocketAddr)
    ensures
        match (backend, addr::unspecified(backend.spec_is_ipv4())) {
            (SocketAddr::V4 { .. }, SocketAddr::V4 { ip, port }) => ip == 0 && port == 0,
            (
                SocketAddr::V6 { .. },
                SocketAddr::V6 { ip, port, flowinfo, scope_id },
            ) => ip == 0 && port == 0 && flowinfo == 0 && scope_id == 0,
            _ => false,
        },
{
}

/// Whether to try again depends on the limit alone, unless a shutdown has been asked for: the answer
/// is yes for as many failures as are fewer than the limit, and for any number without one.
pub proof fn lemma_should_retry(policy: ReconnectPolicy, attempt: u32, cancelled: bool, r: bool)
    requires
        call_ensures(ReconnectPolicy::should_retry, (&policy, attempt, cancelled), r),
    ensures
        cancelled ==> !r,
        !cancelled && policy.max_attempts is None ==> r,
        !cancelled ==> (policy.max_attempts matches Some(max) ==> (r <==> attempt < max)),
{
}

/// A pause is followed by one twice as long, up to the limit.
pub proof fn lemma_next_pause(policy: ReconnectPolicy, backoff: Duration, r: Duration)
    requires
        call_ensures(ReconnectPolicy::sleep_backoff, (&policy, backoff), r),
        backoff.nanos > 0,
        policy.max_backoff.nanos > 0,
    ensures
        r.nanos <= policy.max_backoff.nanos,
        r.nanos <= 2 * backoff.nanos,
        r.nanos == policy.max_backoff.nanos || r.nanos == 2 * backoff.nanos,
{
}

/// A connection that a TCP session forwards is announced as coming from where it came from, and is
/// handed on itself; nothing else is forwarded.
pub proof fn lemma_tcp_connection_is_announced<T>(event: SessionEvent<T>, r: TcpSessionAction<T>)
    requires
        call_ensures(client::run_tcp_session::<T>, (event,), r),
    ensures
        r is Forward <==> event is Local,
        event matches SessionEvent::Local(source, c) ==> (r matches TcpSessionAction::Forward {
            connection,
            request,
        } && connection == c && (protocol::frame_state(request@) matches FrameState::Full(data) && (
        ConnReq::read(data) matches Ok(req) && match source {
            SocketAddr::V4 { ip, port } => req.client_local_addr == source,
            SocketAddr::V6 { ip, port, flowinfo, scope_id } => req.client_local_addr == (
            SocketAddr::V6 { ip, port, flowinfo: 0, scope_id: 0 }),
        }))),
        r is End <==> event is Cancelled || event is Closed,
        event is LocalFailed ==> (r matches TcpSessionAction::Pause(d) && d.nanos == 100_000_000),
{
    if let SessionEvent::Local(source, c) = event {
        lemma_request_names_its_source(source);
    }
}

/// The backend of a stream is the service of the tunnel, reached from its own family, for the client
/// that asked.
pub proof fn lemma_stream_goes_to_the_service(t: HostTunnel, req: ConnReq, r: BackendPlan)
    requires
        call_ensures(HostTunnel::handle_stream, (&t, req), r),
    ensures
        r.connect == t.forward_to,
        r.protocol == t.protocol,
        r.client == req.client_local_addr,
        r.bind is V4 <==> t.forward_to is V4,
        r.bind matches SocketAddr::V4 { ip, port } ==> ip == 0 && port == 0,
        r.bind matches SocketAddr::V6 { ip, port, flowinfo, scope_id } ==> ip == 0 && port == 0,
{
}

/// The word for a protocol is read as that protocol.
pub proof fn lemma_protocol_word_is_read(
    p: TunnelProtocol,
    word: &'static str,
    r: Result<TunnelProtocol, IoError>,
)
    requires
        call_ensures(TunnelProtocol::to_text, (&p,), word),
        call_ensures(TunnelProtocol::from_str, (word,), r),
    ensures
        r == Ok::<TunnelProtocol, IoError>(p),
        word@ == match p {
            TunnelProtocol::Tcp => "tcp"@,
            TunnelProtocol::Udp => "udp"@,
        },
{
    reveal_strlit("tcp");
    reveal_strlit("udp");
    let lower = word@.map_values(|c: char| tunnel::ascii_lower(c));
    assert(utf8::is_ascii_chars(word@));
    assert(lower =~= word@);
    p.lemma_name_read(r);
}

/// The greeting that a client sends is heard by the host as one of version two.
pub proof fn lemma_sent_greeting_is_heard(r: Result<Vec<u8>, Error>)
    requires
        call_ensures(client::send_hello, (), r),
    ensures
        r matches Ok(v) && (protocol::frame_state(v@) matches FrameState::Full(data) && (Hello::read(
            data,
        ) matches Ok(hello) && hello.version == 2 && hello.capabilities == 0)),
{
    lemma_greeting_is_heard(Hello { version: 2, capabilities: 0 });
}

/// A datagram of a UDP session goes as it is to the forwarder of its source where there is one, and
/// else, with a new stream for it, to a new one.
pub proof fn lemma_datagram_goes_to_its_source<H>(
    s: UdpSessions<H>,
    source: SocketAddr,
    data: Vec<u8>,
    r: UdpSessionAction<H>,
)
    requires
        call_ensures(
            UdpSessions::<H>::run_udp_session,
            (&s, SessionEvent::Local(source, data)),
            r,
        ),
    ensures
        s@.contains_key(source) ==> (r matches UdpSessionAction::Deliver(h, payload) && *h
            == s@[source] && payload == data),
        !s@.contains_key(source) ==> (r matches UdpSessionAction::Open { request, payload }
            && payload == data && request@ == protocol::framed(
            (ConnReq { client_local_addr: source }).wire(),
        )),
{
}

/// A client tunnel is planned exactly where host, address and protocol are given, and is planned and
/// started as it was asked for, not connected and without failures.
pub proof fn lemma_client_is_planned_as_asked(
    b: ClientTunnelBuilder,
    r: Result<ClientPlan, Error>,
    bound: SocketAddr,
    t: ClientTunnel,
)
    requires
        call_ensures(ClientTunnelBuilder::start, (b,), r),
        r matches Ok(p) ==> call_ensures(ClientPlan::started, (&p, bound), t),
    ensures
        r is Ok <==> b.host is Some && b.bind is Some && b.protocol is Some,
        r matches Ok(p) ==> {
            &&& b.host == Some(p.host)
            &&& b.bind == Some(p.bind)
            &&& b.protocol == Some(p.protocol)
            &&& p.relay == b.relay
            &&& p.discovery == b.discovery
            &&& p.reconnect == b.reconnect
            &&& t.name@ == b.name@
            &&& t.bind == bound
            &&& b.protocol == Some(t.protocol)
            &&& t.reconnect == b.reconnect
            &&& t.supervisor.phase is Fresh
            &&& t.supervisor.attempt == 0
            &&& t.supervisor.backoff == b.reconnect.initial_backoff
            &&& !t.supervisor.connected
            &&& t.active == 0
            &&& !t.cancelled
        },
{
}

/// A host tunnel is started exactly where secret, service and protocol are given, and is as it was
/// asked for: known by the public key of its secret, without peers and alive.
pub proof fn lemma_host_is_started_as_asked(
    b: HostTunnelBuilder,
    r: Result<(HostTunnel, HostEndpoint), Error>,
)
    requires
        call_ensures(HostTunnelBuilder::start, (b,), r),
    ensures
        r is Ok <==> b.secret is Some && b.forward_to is Some && b.protocol is Some,
        r matches Ok((t, e)) ==> {
            &&& b.secret == Some(e.secret)
            &&& t.public_key@ == key::public_key_of(e.secret@)
            &&& b.forward_to == Some(t.forward_to)
            &&& b.protocol == Some(t.protocol)
            &&& t.name@ == b.name@
            &&& e.relay == b.relay
            &&& e.discovery == b.discovery
            &&& e.bind_v4 == b.bind_v4
            &&& t.peers@ == Map::<PublicKey, PeerEntry>::empty()
            &&& !t.cancelled
            &&& !t.dead
        },
{
}

/// A host tunnel dies when its endpoint closes and no shutdown has been asked for, and at no other
/// time; it serves every peer that comes.
pub proof fn lemma_closed_endpoint_is_death(t: &mut HostTunnel, event: AcceptEvent, r: AcceptAction)
    requires
        call_ensures(HostTunnel::accept_loop, (t, event), r),
        !old(t).dead,
    ensures
        final(t).dead <==> event is EndpointClosed && !old(t).cancelled,
        r is Serve <==> event is Incoming,
        final(t).peers == old(t).peers,
        final(t).cancelled == old(t).cancelled,
{
}

/// A peer is served exactly where it greets in version two. It is listed then, without streams and
/// under a number of its own; a peer of another version is turned away with both versions, and is not
/// listed.
pub proof fn lemma_greeting_decides(
    t: &mut HostTunnel,
    s: &mut PeerSession,
    hello: Hello,
    r: PeerAction,
)
    requires
        old(t).wf(),
        old(s).phase is Greeting,
        call_ensures(HostTunnel::handle_peer, (t, s, PeerEvent::HelloReceived(hello)), r),
    ensures
        r is Serve <==> hello.version == 2,
        hello.version == 2 ==> {
            &&& final(t).peers@.contains_key(old(s).key)
            &&& final(t).peers@[old(s).key].active == 0
            &&& final(t).peers@[old(s).key].id == old(t).next_id
            &&& final(s).phase == (PeerPhase::Serving { id: old(t).next_id })
            &&& final(t).next_id == old(t).next_id.wrapping_add(1)
        },
        hello.version != 2 ==> {
            &&& r == PeerAction::Reject(Error::VersionMismatch { ours: 2, peer: hello.version })
            &&& final(t).peers@ == old(t).peers@
            &&& final(s).phase is Ended
        },
        final(t).peers@.remove(old(s).key) == old(t).peers@.remove(old(s).key),
{
    lemma_registered_without_streams(old(t).peers@, old(s).key, old(t).next_id);
}

/// A stream of a peer that is served goes to the tunnel's service; the list of peers stays.
pub proof fn lemma_request_is_forwarded(
    t: &mut HostTunnel,
    s: &mut PeerSession,
    req: ConnReq,
    r: PeerAction,
)
    requires
        old(t).wf(),
        old(s).phase is Serving,
        call_ensures(HostTunnel::handle_peer, (t, s, PeerEvent::Requested(req)), r),
    ensures
        r matches PeerAction::Forward(plan) && plan.connect == old(t).forward_to && plan.protocol
            == old(t).protocol && plan.client == req.client_local_addr && (plan.bind is V4
            <==> old(t).forward_to is V4),
        final(t).peers@ == old(t).peers@,
        final(s).phase == old(s).phase,
{
}

/// However the session of a peer ends, the peer is not listed under that session any more, and no
/// other peer is touched; a newer session of the same peer stays.
pub proof fn lemma_ended_session_frees_its_slot(
    t: &mut HostTunnel,
    s: &mut PeerSession,
    event: PeerEvent,
    id: u64,
    r: PeerAction,
)
    requires
        old(t).wf(),
        old(s).phase == (PeerPhase::Serving { id }),
        event is Cancelled || event is Closed || event is StreamFailed,
        call_ensures(HostTunnel::handle_peer, (t, s, event), r),
    ensures
        final(s).phase is Ended,
        !(final(t).peers@.contains_key(old(s).key) && final(t).peers@[old(s).key].id == id),
        old(t).peers@.contains_key(old(s).key) && old(t).peers@[old(s).key].id != id
            ==> final(t).peers@ == old(t).peers@,
        final(t).peers@.remove(old(s).key) == old(t).peers@.remove(old(s).key),
        r is End <==> event is Cancelled || event is Closed,
        event matches PeerEvent::StreamFailed(e) ==> r == PeerAction::Fail(e),
{
    let peers = old(t).peers@;
    assert(peers.remove(old(s).key).remove(old(s).key) =~= peers.remove(old(s).key));
}

/// Streams are counted one by one, for their own peer and session.
pub proof fn lemma_streams_are_counted(
    up: &mut HostTunnel,
    down: &mut HostTunnel,
    key: PublicKey,
    id: u64,
)
    requires
        old(up).peers@.contains_key(key),
        old(up).peers@[key].id == id,
        old(up).peers@[key].active < usize::MAX,
        call_ensures(HostTunnel::stream_started, (up, key, id), ()),
        *old(down) == *final(up),
        call_ensures(HostTunnel::stream_finished, (down, key, id), ()),
    ensures
        final(up).peers@[key].active == old(up).peers@[key].active + 1,
        final(up).peers@.dom() == old(up).peers@.dom(),
        final(down).peers@ == old(up).peers@,
{
    lemma_stream_counts_one(old(up).peers@, key, id);
    host::lemma_stream_is_uncounted(old(up).peers@, key, id);
}

/// A client tunnel whose endpoint cannot be bound tries again exactly where no shutdown has been
/// asked for and fewer attempts have failed in a row than its limit; it pauses as long as is due.
pub proof fn lemma_client_tries_again(t: &mut ClientTunnel, r: SuperviseAction)
    requires
        old(t).supervisor.phase is Binding,
        call_ensures(ClientTunnel::supervise, (t, SuperviseEvent::BindFailed), r),
    ensures
        if !old(t).cancelled && (old(t).reconnect.max_attempts is None || old(t).supervisor.attempt
            < old(t).reconnect.max_attempts->0) {
            r == SuperviseAction::Sleep(old(t).supervisor.backoff)
                && final(t).supervisor.phase is Sleeping
        } else {
            r is Stop && final(t).supervisor.phase is Stopped
        },
        final(t).supervisor.attempt == old(t).supervisor.attempt,
        final(t).active == old(t).active,
{
}

/// Once its greeting is through, a client tunnel forwards traffic of its own protocol, is connected
/// and has no failures behind it.
pub proof fn lemma_client_runs_its_protocol(t: &mut ClientTunnel, r: SuperviseAction)
    requires
        old(t).supervisor.phase is Greeting,
        call_ensures(ClientTunnel::supervise, (t, SuperviseEvent::HelloSent), r),
    ensures
        r == SuperviseAction::RunSession(old(t).protocol),
        final(t).supervisor.connected,
        final(t).supervisor.attempt == 0,
        final(t).supervisor.backoff == old(t).reconnect.initial_backoff,
{
}

/// A forwarder that was started for a source is found for that source until it is closed, and no
/// other source is touched.
pub proof fn lemma_forwarder_is_found_until_closed<H>(
    s: &mut UdpSessions<H>,
    c: &mut UdpSessions<H>,
    source: SocketAddr,
    handle: H,
)
    requires
        call_ensures(UdpSessions::<H>::opened, (s, source, handle), ()),
        *old(c) == *final(s),
        call_ensures(UdpSessions::<H>::closed, (c, source), ()),
    ensures
        final(s)@.contains_key(source) && final(s)@[source] == handle,
        !final(c)@.contains_key(source),
        final(s)@.remove(source) == old(s)@.remove(source),
        final(c)@ == old(s)@.remove(source),
{
    assert(final(s)@.remove(source) =~= old(s)@.remove(source));
}

} // verus!
