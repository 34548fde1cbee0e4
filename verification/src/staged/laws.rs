//! What holds of the tunnels of a configuration, whatever they are.

use vstd::prelude::*;

use crate::addr::SocketAddr;
use crate::key::{PublicKey, SecretKey};
use crate::staged::client::{
    ClientTunnel, LocalAction, LocalConnection, LocalEvent, Stopped as ClientStopped,
};
use crate::staged::common;
use crate::staged::common::{PollAction, PollEvent, Protocol};
use crate::staged::config::{ClientTunnelConfig, HostTunnelConfig, LantunConfig};
use crate::staged::forwarder::{forwarder, ForwardAction, ForwardEvent, ForwarderConfig};
use crate::staged::host;
use crate::staged::host::{ActiveConnection, ClientConnection, HostTunnel, Running, Stopped};
use crate::staged::state;
use crate::staged::state::State;

verus! {

/// The host tunnels to start are those that are enabled, in their order, each as it is configured;
/// the others are those that are not.
pub proof fn lemma_hosts_by_flag(s: Seq<HostTunnelConfig>, enabled: bool)
    ensures
        state::hosts_with(s, enabled) == s.filter(
            |c: HostTunnelConfig| c.enabled == enabled,
        ).map_values(
            |c: HostTunnelConfig|
                HostTunnel {
                    name: c.name,
                    secret: c.secret,
                    addr: c.local_addr,
                    proto: c.proto,
                    state: Stopped,
                },
        ),
    decreases s.len(),
{
    let p = |c: HostTunnelConfig| c.enabled == enabled;
    let f = |c: HostTunnelConfig|
        HostTunnel {
            name: c.name,
            secret: c.secret,
            addr: c.local_addr,
            proto: c.proto,
            state: Stopped,
        };
    reveal(Seq::filter);
    if s.len() > 0 {
        lemma_hosts_by_flag(s.drop_last(), enabled);
        assert(p =~= (|c: HostTunnelConfig| c.enabled == enabled));
        assert(f =~= (|c: HostTunnelConfig|
            HostTunnel {
                name: c.name,
                secret: c.secret,
                addr: c.local_addr,
                proto: c.proto,
                state: Stopped,
            }));
        let before = s.drop_last().filter(p);
        assert(state::hosts_with(s.drop_last(), enabled) == before.map_values(f));
        if p(s.last()) {
            assert(s.filter(p) =~= before.push(s.last()));
            assert(s.filter(p).map_values(f) =~= before.map_values(f).push(f(s.last())));
        } else {
            assert(s.filter(p) =~= before);
        }
    } else {
        assert(s.filter(p).map_values(f) =~= Seq::empty());
    }
}

/// The client tunnels to start are those that are enabled, in their order, each as it is configured;
/// the others are those that are not.
pub proof fn lemma_clients_by_flag(s: Seq<ClientTunnelConfig>, enabled: bool)
    ensures
        state::clients_with(s, enabled) == s.filter(
            |c: ClientTunnelConfig| c.enabled == enabled,
        ).map_values(
            |c: ClientTunnelConfig|
                ClientTunnel {
                    name: c.name,
                    public: c.host_public,
                    addr: c.local_addr,
                    proto: c.proto,
                    state: ClientStopped,
                },
        ),
    decreases s.len(),
{
    let p = |c: ClientTunnelConfig| c.enabled == enabled;
    let f = |c: ClientTunnelConfig|
        ClientTunnel {
            name: c.name,
            public: c.host_public,
            addr: c.local_addr,
            proto: c.proto,
            state: ClientStopped,
        };
    reveal(Seq::filter);
    if s.len() > 0 {
        lemma_clients_by_flag(s.drop_last(), enabled);
        assert(p =~= (|c: ClientTunnelConfig| c.enabled == enabled));
        assert(f =~= (|c: ClientTunnelConfig|
            ClientTunnel {
                name: c.name,
                public: c.host_public,
                addr: c.local_addr,
                proto: c.proto,
                state: ClientStopped,
            }));
        let before = s.drop_last().filter(p);
        assert(state::clients_with(s.drop_last(), enabled) == before.map_values(f));
        if p(s.last()) {
            assert(s.filter(p) =~= before.push(s.last()));
            assert(s.filter(p).map_values(f) =~= before.map_values(f).push(f(s.last())));
        } else {
            assert(s.filter(p) =~= before);
        }
    } else {
        assert(s.filter(p).map_values(f) =~= Seq::empty());
    }
}

/// The end of a session takes its connection away where it is still the one at its address, and
/// changes nothing else.
pub proof fn lemma_closed_session_is_taken_away<H>(
    connections: Map<SocketAddr, ActiveConnection<H>>,
    at: SocketAddr,
    id: u64,
)
    ensures
        connections.contains_key(at) && connections[at].id == id ==> host::without_session(
            connections,
            at,
            id,
        ) == connections.remove(at),
        !connections.contains_key(at) || connections[at].id != id ==> host::without_session(
            connections,
            at,
            id,
        ) == connections,
{
}

/// A reader hands over what it received as it is, and nothing else but an empty read after a wait;
/// of the failures only one that the socket was not ready makes it wait.
pub proof fn lemma_reader_hands_over_what_came(event: PollEvent, r: PollAction)
    requires
        common::reads_on(event, r),
    ensures
        r matches PollAction::ReadDone(v) ==> event == PollEvent::Received(v) || (event is Ready
            && v@.len() == 0),
        event matches PollEvent::Received(v) ==> r == PollAction::ReadDone(v),
        event is Ready ==> r is ReadDone,
        event matches PollEvent::Failed(e) ==> if e.kind is WouldBlock {
            r is WaitReadable
        } else {
            r == PollAction::Fail(e)
        },
        !(event is Received || event is Failed || event is Ready) ==> r is Pend,
{
}

/// A writer sends to its own address, always the same, and tells how many bytes went; of the
/// failures only one that the socket was not ready makes it wait, and then for the same address.
pub proof fn lemma_writer_sends_to_its_own(to: Option<SocketAddr>, event: PollEvent, r: PollAction)
    requires
        common::writes_on(to, event, r),
    ensures
        r matches PollAction::TrySend(a) ==> a == to && event is Polled,
        r matches PollAction::WaitWritable(a) ==> a == to,
        r matches PollAction::WriteDone(n) ==> event == PollEvent::Sent(n) || event
            == PollEvent::Waited(Ok(n)),
        event is Polled ==> r is TrySend,
        event is Sent ==> r is WriteDone,
        event matches PollEvent::Failed(e) ==> if e.kind is WouldBlock {
            r is WaitWritable
        } else {
            r == PollAction::Fail(e)
        },
        event matches PollEvent::Waited(Ok(n)) ==> r is WriteDone,
        event matches PollEvent::Waited(Err(e)) ==> r == PollAction::Fail(e),
{
}

/// What one side sends goes to the other as it is and nowhere else, and nothing else is sent; a
/// timeout closes the connection only where one is configured.
pub proof fn lemma_forwarder_is_transparent(
    config: ForwarderConfig,
    event: ForwardEvent,
    r: ForwardAction,
)
    requires
        call_ensures(forwarder, (&config, event), r),
    ensures
        r matches ForwardAction::ToStream(v) ==> event == ForwardEvent::FromSocket(Ok(v))
            && v@.len() > 0,
        r matches ForwardAction::ToSocket(v) ==> event == ForwardEvent::FromStream(Ok(v))
            && v@.len() > 0,
        event matches ForwardEvent::FromSocket(Ok(v)) ==> v@.len() > 0 ==> r is ToStream,
        event matches ForwardEvent::FromStream(Ok(v)) ==> v@.len() > 0 ==> r is ToSocket,
        r is Again <==> event is TimedOut && config.timeout is None,
        event is WriteFailed ==> r is Close,
        event matches ForwardEvent::FromSocket(Err(e)) ==> r is Close,
        event matches ForwardEvent::FromStream(Err(e)) ==> r is Close,
{
}

/// Every entry of a configuration has its host tunnel, as it is configured: among those to start
/// where it is enabled, else among the rest.
pub proof fn lemma_every_host_has_its_place(config: LantunConfig, r: State, i: int)
    requires
        call_ensures(State::from_config, (&config,), r),
        0 <= i < config.host_tunnels@.len(),
    ensures
        config.host_tunnels@[i].enabled ==> exists|j: int|
            0 <= j < r.active_host_tunnels@.len() && (#[trigger] r.active_host_tunnels@[j]).name
                == config.host_tunnels@[i].name && r.active_host_tunnels@[j].secret
                == config.host_tunnels@[i].secret && r.active_host_tunnels@[j].addr
                == config.host_tunnels@[i].local_addr && r.active_host_tunnels@[j].proto
                == config.host_tunnels@[i].proto,
        !config.host_tunnels@[i].enabled ==> exists|j: int|
            0 <= j < r.inactive_host_tunnels@.len() && (
            #[trigger] r.inactive_host_tunnels@[j]).name == config.host_tunnels@[i].name
                && r.inactive_host_tunnels@[j].secret == config.host_tunnels@[i].secret
                && r.inactive_host_tunnels@[j].addr == config.host_tunnels@[i].local_addr
                && r.inactive_host_tunnels@[j].proto == config.host_tunnels@[i].proto,
{
    let s = config.host_tunnels@;
    let on = s[i].enabled;
    let p = |c: HostTunnelConfig| c.enabled == on;
    lemma_hosts_by_flag(s, on);
    assert(p =~= (|c: HostTunnelConfig| c.enabled == on));
    broadcast use vstd::seq_lib::group_filter_ensures;

    assert(s.filter(p).contains(s[i]));
    let j = choose|j: int| 0 <= j < s.filter(p).len() && s.filter(p)[j] == s[i];
    let t = state::hosts_with(s, on)[j];
    assert(t.name == s[i].name && t.secret == s[i].secret && t.addr == s[i].local_addr && t.proto
        == s[i].proto);
    if on {
        assert(r.active_host_tunnels@[j] == t);
    } else {
        assert(r.inactive_host_tunnels@[j] == t);
    }
}

/// Every entry of a configuration has its client tunnel, as it is configured: among those to start
/// where it is enabled, else among the rest.
pub proof fn lemma_every_client_has_its_place(config: LantunConfig, r: State, i: int)
    requires
        call_ensures(State::from_config, (&config,), r),
        0 <= i < config.client_tunnels@.len(),
    ensures
        config.client_tunnels@[i].enabled ==> exists|j: int|
            0 <= j < r.active_client_tunnels@.len() && (#[trigger] r.active_client_tunnels@[j]).name
                == config.client_tunnels@[i].name && r.active_client_tunnels@[j].public
                == config.client_tunnels@[i].host_public && r.active_client_tunnels@[j].addr
                == config.client_tunnels@[i].local_addr && r.active_client_tunnels@[j].proto
                == config.client_tunnels@[i].proto,
        !config.client_tunnels@[i].enabled ==> exists|j: int|
            0 <= j < r.inactive_client_tunnels@.len() && (
            #[trigger] r.inactive_client_tunnels@[j]).name == config.client_tunnels@[i].name
                && r.inactive_client_tunnels@[j].public == config.client_tunnels@[i].host_public
                && r.inactive_client_tunnels@[j].addr == config.client_tunnels@[i].local_addr
                && r.inactive_client_tunnels@[j].proto == config.client_tunnels@[i].proto,
{
    let s = config.client_tunnels@;
    let on = s[i].enabled;
    let p = |c: ClientTunnelConfig| c.enabled == on;
    lemma_clients_by_flag(s, on);
    assert(p =~= (|c: ClientTunnelConfig| c.enabled == on));
    broadcast use vstd::seq_lib::group_filter_ensures;

    assert(s.filter(p).contains(s[i]));
    let j = choose|j: int| 0 <= j < s.filter(p).len() && s.filter(p)[j] == s[i];
    let t = state::clients_with(s, on)[j];
    assert(t.name == s[i].name && t.public == s[i].host_public && t.addr == s[i].local_addr
        && t.proto == s[i].proto);
    if on {
        assert(r.active_client_tunnels@[j] == t);
    } else {
        assert(r.inactive_client_tunnels@[j] == t);
    }
}

/// The word for a protocol is read as that protocol.
pub proof fn lemma_protocol_word_is_read(p: Protocol, word: &'static str, r: Result<Protocol, String>)
    requires
        call_ensures(Protocol::to_text, (&p,), word),
        call_ensures(Protocol::from_str, (word,), r),
    ensures
        r == Ok::<Protocol, String>(p),
        word@ == match p {
            Protocol::Tcp => "tcp"@,
            Protocol::Udp => "udp"@,
        },
{
    reveal_strlit("tcp");
    reveal_strlit("udp");
    assert("tcp"@[0] != "udp"@[0]);
}

/// A connection of a client goes to the local address, from an address of its family.
pub proof fn lemma_client_goes_to_the_local_address(local: SocketAddr, r: ClientConnection)
    requires
        call_ensures(ClientConnection::new, (local, Protocol::Tcp), r),
    ensures
        r.virtual_addr == local,
        r.client_addr is V4 <==> local is V4,
        r.opening@.len() == 1,
{
}

/// A connection is listed under its virtual address until its own session closes; a session that was
/// replaced there takes nothing away.
pub proof fn lemma_connection_is_listed_until_closed<H>(
    t: &mut HostTunnel<Running<H>>,
    c: &mut HostTunnel<Running<H>>,
    connection: ClientConnection,
    id: u64,
    closed: u64,
    handle: H,
    r: Option<H>,
    q: Option<H>,
)
    requires
        call_ensures(HostTunnel::<Running<H>>::connected, (t, &connection, id, handle), r),
        *old(c) == *final(t),
        call_ensures(
            HostTunnel::<Running<H>>::connection_closed,
            (c, connection.virtual_addr, closed),
            q,
        ),
    ensures
        final(t).connections().contains_key(connection.virtual_addr),
        final(t).connections()[connection.virtual_addr].handle == handle,
        final(t).connections()[connection.virtual_addr].id == id,
        final(t).connections().remove(connection.virtual_addr) == old(t).connections().remove(
            connection.virtual_addr,
        ),
        closed == id ==> q == Some(handle) && final(c).connections() == old(t).connections().remove(
            connection.virtual_addr,
        ),
        closed != id ==> q is None && final(c).connections() == final(t).connections(),
{
    let at = connection.virtual_addr;
    assert(final(t).connections().remove(at) =~= old(t).connections().remove(at));
}

/// A local connection is forwarded for the application that was accepted, once its stream is there
/// and opened.
pub proof fn lemma_accepted_application_is_forwarded(
    a: &mut LocalConnection,
    b: &mut LocalConnection,
    c: &mut LocalConnection,
    from: SocketAddr,
    x: LocalAction,
    y: LocalAction,
    z: LocalAction,
)
    requires
        *old(a) is Listening,
        call_ensures(LocalConnection::step, (a, LocalEvent::Accepted(Some(from))), x),
        *old(b) == *final(a),
        call_ensures(LocalConnection::step, (b, LocalEvent::StreamAccepted(true)), y),
        *old(c) == *final(b),
        call_ensures(LocalConnection::step, (c, LocalEvent::Opened(Ok(()))), z),
    ensures
        x is AcceptStream,
        y is ReadOpening,
        z == LocalAction::Forward(from),
        *final(c) is Done,
{
}

/// A tunnel that is added to a configuration is enabled, as it was asked for, and behind all others.
pub proof fn lemma_added_tunnels_are_enabled(
    h: &mut LantunConfig,
    c: &mut LantunConfig,
    name: Option<String>,
    secret: SecretKey,
    public_key: PublicKey,
    local: SocketAddr,
    protocol: Protocol,
)
    requires
        call_ensures(state::create_host_tunnel, (h, name, secret, local, protocol), ()),
        call_ensures(state::add_client_tunnel, (c, name, public_key, local, protocol), ()),
    ensures
        final(h).host_tunnels@.drop_last() == old(h).host_tunnels@,
        final(h).client_tunnels@ == old(h).client_tunnels@,
        ({
            let e = final(h).host_tunnels@.last();
            e.enabled && e.name == name && e.secret == secret && e.local_addr == local && e.proto
                == protocol
        }),
        final(c).client_tunnels@.drop_last() == old(c).client_tunnels@,
        final(c).host_tunnels@ == old(c).host_tunnels@,
        ({
            let e = final(c).client_tunnels@.last();
            e.enabled && e.name == name && e.host_public == public_key && e.local_addr == local
                && e.proto == protocol
        }),
{
    assert(final(h).host_tunnels@.drop_last() =~= old(h).host_tunnels@);
    assert(final(c).client_tunnels@.drop_last() =~= old(c).client_tunnels@);
}

} // verus!
