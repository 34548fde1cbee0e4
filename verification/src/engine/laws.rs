//! What holds of the engine, whatever its tunnels are.

use vstd::prelude::*;

use crate::addr::SocketAddr;
use crate::cli::run;
use crate::duration::Duration;
use crate::engine::cli;
use crate::engine::cli::Outcome;
use crate::engine::client;
use crate::engine::client::{ClientError, ClientTunnel, ListenAction, ListenEvent, LocalPort};
use crate::engine::common::{
    receive_packet, send_packet, Client2HostControlMsg, LocalClientConnection, ReceivePacketError,
    TunnelCommon,
};
use crate::engine::config;
use crate::engine::config::{ClientTunnelEntry, HostTunnelEntry, LanTunConfig, StateError};
use crate::engine::host::{
    AcceptAction, AcceptEvent, ConnectedClient, ConnectedClients, HostError, HostTunnel,
    VirtualClient,
};
use crate::engine::net;
use crate::engine::net::{Forwarder, Half, PumpAction, PumpEvent, Side};
use crate::error::IoError;
use crate::key;
use crate::key::{HexError, PublicKey, SecretKey};
use crate::named;
use crate::named::Named;
use crate::table;
use crate::table::Table;
use crate::text;
use crate::tunnel::TunnelProtocol;
use crate::wire::{DecodeError, Message, VariantType};

verus! {

/// Creating a host tunnel is refused exactly where another has both its address and its protocol.
/// Else it is there as it was asked for, enabled and with both of its keys, among all that were
/// there before; and what is printed ends in a command that fits it.
pub proof fn lemma_created_host_fits(
    cfg: LanTunConfig,
    local: SocketAddr,
    protocol: TunnelProtocol,
    name: Seq<char>,
    secret: SecretKey,
    r: Outcome,
)
    requires
        cli::host_creation(cfg, local, protocol, name, secret@, r),
    ensures
        ({
            let word = match protocol {
                TunnelProtocol::Tcp => "tcp"@,
                TunnelProtocol::Udp => "udp"@,
            };
            let hex = key::hex_text(key::public_key_of(secret@));
            let placed_so = exists|i: int|
                0 <= i < cfg.host_tunnels@.len() && (#[trigger] cfg.host_tunnels@[i]).local == local
                    && cfg.host_tunnels@[i].protocol == protocol;
            match r {
                Outcome::Taken => placed_so,
                Outcome::Save { config, output } => {
                    &&& !placed_so
                    &&& config.client_tunnels@ == cfg.client_tunnels@
                    &&& named::is_sorted(config.host_tunnels@)
                    &&& exists|e: HostTunnelEntry| #[trigger]
                        config.host_tunnels@.contains(e) && e.name@ == name && e.local == local
                            && e.protocol == protocol && e.enabled && key::hex_result(
                            e.private_secret@,
                        ) == Ok::<Seq<u8>, HexError>(secret@) && key::hex_result(e.public_secret@)
                            == Ok::<Seq<u8>, HexError>(key::public_key_of(secret@))
                            && config.host_tunnels@.to_multiset()
                            == cfg.host_tunnels@.to_multiset().insert(e)
                    &&& output@ == "Tunnel \""@ + name + "\" with local addr "@ + local.display()
                        + "/"@ + word + " created.\nThe public secret is \""@ + hex
                        + "\"\n\nTo add a client tunnel on the client side, use:\n  lantun add-client "@
                        + hex + " "@ + local.display() + " "@ + word + " <name>\n"@
                    &&& forall|w: Seq<char>, p: Result<TunnelProtocol, IoError>|
                        w == word && #[trigger] TunnelProtocol::named_by(w, p) ==> p == Ok::<
                            TunnelProtocol,
                            IoError,
                        >(protocol)
                },
                _ => false,
            }
        }),
{
    if let Outcome::Save { config, output } = r {
        let e = choose|e: HostTunnelEntry|
            cli::new_host(e, local, protocol, name, secret@) && config.host_tunnels@ == #[trigger]
                named::sorted_by_name(cfg.host_tunnels@.push(e));
        run::lemma_added_in_order(cfg.host_tunnels@, e);
        run::lemma_keys_read_back(secret);
        broadcast use vstd::seq_lib::group_to_multiset_ensures;

        assert(config.host_tunnels@.to_multiset().count(e) > 0);
        assert(config.host_tunnels@.contains(e));
        let hex = key::hex_text(key::public_key_of(secret@));
        assert(output@ =~= "Tunnel \""@ + name + "\" with local addr "@ + local.display() + "/"@
            + protocol.display() + " created.\nThe public secret is \""@ + hex
            + "\"\n\nTo add a client tunnel on the client side, use:\n  lantun add-client "@ + hex
            + " "@ + local.display() + " "@ + protocol.display() + " <name>\n"@);
        let word = protocol.display();
        assert forall|w: Seq<char>, p: Result<TunnelProtocol, IoError>|
            w == word && #[trigger] TunnelProtocol::named_by(w, p) implies p == Ok::<
            TunnelProtocol,
            IoError,
        >(protocol) by {
            protocol.lemma_name_read(p);
        }
    }
}

/// Adding a client tunnel fails exactly where its secret is not hexadecimal, and is refused where
/// another has both its address and its protocol. Else it is there as it was asked for, enabled,
/// among all that were there before.
pub proof fn lemma_created_client_fits(
    cfg: LanTunConfig,
    secret: Seq<char>,
    local: SocketAddr,
    protocol: TunnelProtocol,
    name: Seq<char>,
    r: Outcome,
)
    requires
        cli::client_creation(cfg, secret, local, protocol, name, r),
    ensures
        ({
            let placed_so = exists|i: int|
                0 <= i < cfg.client_tunnels@.len() && (#[trigger] cfg.client_tunnels@[i]).local
                    == local && cfg.client_tunnels@[i].protocol == protocol;
            match r {
                Outcome::Fail(m) => key::hex_result(secret) is Err && m@
                    == "Invalid secret format. It should be a hex string."@,
                Outcome::Taken => key::hex_result(secret) is Ok && placed_so,
                Outcome::Save { config, output } => {
                    &&& key::hex_result(secret) is Ok
                    &&& !placed_so
                    &&& config.host_tunnels@ == cfg.host_tunnels@
                    &&& named::is_sorted(config.client_tunnels@)
                    &&& exists|e: ClientTunnelEntry| #[trigger]
                        config.client_tunnels@.contains(e) && e.name@ == name && e.local == local
                            && e.protocol == protocol && e.enabled && key::hex_result(e.secret@)
                            == key::hex_result(secret) && config.client_tunnels@.to_multiset()
                            == cfg.client_tunnels@.to_multiset().insert(e)
                    &&& output@ == "Client tunnel \""@ + name + "\" with local addr "@
                        + local.display() + "/"@ + (match protocol {
                        TunnelProtocol::Tcp => "tcp"@,
                        TunnelProtocol::Udp => "udp"@,
                    }) + " created.\n"@
                },
                _ => false,
            }
        }),
{
    if let Outcome::Save { config, output } = r {
        let bytes = key::hex_result(secret)->Ok_0;
        let e = choose|e: ClientTunnelEntry|
            e.name@ == name && e.local == local && e.protocol == protocol && e.secret@
                == key::hex_text(bytes) && e.enabled && config.client_tunnels@ == #[trigger]
                named::sorted_by_name(cfg.client_tunnels@.push(e));
        run::lemma_added_in_order(cfg.client_tunnels@, e);
        key::lemma_hex_roundtrip(bytes);
        broadcast use vstd::seq_lib::group_to_multiset_ensures;

        assert(config.client_tunnels@.to_multiset().count(e) > 0);
        assert(config.client_tunnels@.contains(e));
        assert(output@ =~= "Client tunnel \""@ + name + "\" with local addr "@ + local.display()
            + "/"@ + protocol.display() + " created.\n"@);
    }
}

/// The list holds a section for the hosts and one for the clients, with a line for each tunnel in
/// order: its name, where it is, and the secret by which it is reached.
pub proof fn lemma_list_tells_all(cfg: LanTunConfig)
    ensures
        cli::list_words(cfg) == "Host Tunnels:\n"@ + run::lines(
            cfg.host_tunnels@,
            |t: HostTunnelEntry|
                "  "@ + t.name@ + ": "@ + t.local.display() + "/"@ + (match t.protocol {
                    TunnelProtocol::Tcp => "tcp"@,
                    TunnelProtocol::Udp => "udp"@,
                }) + ": "@ + t.public_secret@ + "\n"@,
        ) + "\nClient Tunnels:\n"@ + run::lines(
            cfg.client_tunnels@,
            |t: ClientTunnelEntry|
                "  "@ + t.name@ + ": "@ + t.local.display() + " -> "@ + t.secret@ + "\n"@,
        ),
{
    let shown = |t: HostTunnelEntry|
        "  "@ + t.name@ + ": "@ + t.local.display() + "/"@ + (match t.protocol {
            TunnelProtocol::Tcp => "tcp"@,
            TunnelProtocol::Udp => "udp"@,
        }) + ": "@ + t.public_secret@ + "\n"@;
    assert forall|t: HostTunnelEntry| #[trigger] cli::host_line(t) == shown(t) by {
        assert(cli::host_line(t) =~= "  "@ + t.name@ + ": "@ + t.local.display() + "/"@
            + t.protocol.display() + ": "@ + t.public_secret@ + "\n"@);
    }
    assert((|t: HostTunnelEntry| cli::host_line(t)) =~= shown);
    assert((|t: ClientTunnelEntry| cli::client_line(t)) =~= (|t: ClientTunnelEntry|
        "  "@ + t.name@ + ": "@ + t.local.display() + " -> "@ + t.secret@ + "\n"@));
}

/// Removing a name takes away one tunnel of that name, the first, a host before a client, and keeps
/// all others in their order; where there is none, nothing is saved.
pub proof fn lemma_removal_takes_one(cfg: LanTunConfig, name: Seq<char>, r: Outcome)
    requires
        cli::removal(cfg, name, r),
    ensures
        ({
            let in_hosts = exists|i: int|
                0 <= i < cfg.host_tunnels@.len() && (#[trigger] cfg.host_tunnels@[i]).name@ == name;
            let in_clients = exists|i: int|
                0 <= i < cfg.client_tunnels@.len() && (#[trigger] cfg.client_tunnels@[i]).name@
                    == name;
            match r {
                Outcome::Save { config, output } => if in_hosts {
                    &&& config.client_tunnels@ == cfg.client_tunnels@
                    &&& output@ == "Removed host tunnel \""@ + name + "\"\n"@
                    &&& exists|i: int|
                        {
                            &&& 0 <= i < cfg.host_tunnels@.len()
                            &&& (#[trigger] cfg.host_tunnels@[i]).name@ == name
                            &&& forall|j: int|
                                0 <= j < i ==> (#[trigger] cfg.host_tunnels@[j]).name@ != name
                            &&& config.host_tunnels@ == cfg.host_tunnels@.remove(i)
                        }
                } else {
                    &&& in_clients
                    &&& config.host_tunnels@ == cfg.host_tunnels@
                    &&& output@ == "Removed client tunnel \""@ + name + "\"\n"@
                    &&& exists|i: int|
                        {
                            &&& 0 <= i < cfg.client_tunnels@.len()
                            &&& (#[trigger] cfg.client_tunnels@[i]).name@ == name
                            &&& forall|j: int|
                                0 <= j < i ==> (#[trigger] cfg.client_tunnels@[j]).name@ != name
                            &&& config.client_tunnels@ == cfg.client_tunnels@.remove(i)
                        }
                },
                Outcome::Print(output) => !in_hosts && !in_clients && output@ == "Tunnel \""@ + name
                    + "\" not found\n"@,
                _ => false,
            }
        }),
{
    let hosts = cfg.host_tunnels@;
    let clients = cfg.client_tunnels@;
    assert forall|i: int| 0 <= i < hosts.len() implies (#[trigger] hosts[i]).name@
        == hosts[i].spec_name() by {}
    assert forall|i: int| 0 <= i < clients.len() implies (#[trigger] clients[i]).name@
        == clients[i].spec_name() by {}
    if named::has_name(hosts, name) {
        let i = choose|i: int| #[trigger] named::first_named(hosts, name, i) && r->config.host_tunnels@
            == hosts.remove(i);
        assert(hosts[i].name@ == name);
        assert forall|j: int| 0 <= j < i implies (#[trigger] hosts[j]).name@ != name by {
            assert(hosts[j].spec_name() != name);
        }
    } else if named::has_name(clients, name) {
        let i = choose|i: int| #[trigger] named::first_named(clients, name, i)
            && r->config.client_tunnels@ == clients.remove(i);
        assert(clients[i].name@ == name);
        assert forall|j: int| 0 <= j < i implies (#[trigger] clients[j]).name@ != name by {
            assert(clients[j].spec_name() != name);
        }
    }
}

/// The tunnels of a configuration are as their entries say, and not running: each client entry has
/// its tunnel at its own place, and there is no other.
pub proof fn lemma_clients_are_as_configured(
    s: Seq<ClientTunnelEntry>,
    m: Map<LocalPort, ClientTunnel>,
    i: int,
)
    requires
        config::clients_built(s, m),
        0 <= i < s.len(),
    ensures
        ({
            let p = LocalPort { addr: s[i].local, protocol: s[i].protocol };
            &&& m.contains_key(p)
            &&& m[p].name == s[i].name
            &&& m[p].tunnel_addr == s[i].local
            &&& m[p].protocol == s[i].protocol
            &&& key::hex_result(s[i].secret@) == Ok::<Seq<u8>, HexError>(m[p].secret@)
            &&& !m[p].is_connected
            &&& m[p].running_props is None
        }),
        forall|p: LocalPort| #[trigger]
            m.contains_key(p) ==> exists|j: int|
                0 <= j < s.len() && (#[trigger] s[j]).local == p.addr && s[j].protocol
                    == p.protocol,
{
    let p = LocalPort { addr: s[i].local, protocol: s[i].protocol };
    assert(config::place_of(s[i]) == p);
    assert forall|q: LocalPort| #[trigger] m.contains_key(q) implies exists|j: int|
        0 <= j < s.len() && (#[trigger] s[j]).local == q.addr && s[j].protocol == q.protocol by {
        let j = choose|j: int| 0 <= j < s.len() && q == #[trigger] config::place_of(s[j]);
        assert(s[j].local == q.addr);
    }
}

/// The host tunnel of a secret is as the last entry with that secret says, and not running.
pub proof fn lemma_hosts_are_as_configured(
    s: Seq<HostTunnelEntry>,
    m: Map<[u8; 32], HostTunnel>,
    i: int,
    k: [u8; 32],
)
    requires
        config::hosts_built(s, m),
        0 <= i < s.len(),
        key::hex_result(s[i].private_secret@) == Ok::<Seq<u8>, HexError>(k@),
        forall|j: int|
            i < j < s.len() ==> key::hex_result((#[trigger] s[j]).private_secret@) != Ok::<
                Seq<u8>,
                HexError,
            >(k@),
    ensures
        m.contains_key(k),
        m[k].name == s[i].name,
        m[k].secret@ == k@,
        m[k].host_addr == s[i].local,
        m[k].protocol == s[i].protocol,
        !m[k].is_open,
        m[k].running_props is None,
{
    assert(k@.len() == 32);
    assert(config::secret_bytes(s[i].private_secret@) == Some(k@));
    assert(m.contains_key(k));
    let j = choose|j: int| #[trigger] config::built_from(s, j, k, m[k]);
    if i < j {
        assert(config::secret_bytes(s[j].private_secret@) == Some(k@));
    } else if j < i {
        assert(config::secret_bytes(s[i].private_secret@) != Some(k@));
    }
}

/// A client entry can be used exactly where its secret is a public key and no earlier entry has both
/// its address and its protocol; what is wrong with one that cannot is told.
pub proof fn lemma_client_entry_usable(s: Seq<ClientTunnelEntry>, i: int, e: StateError)
    requires
        0 <= i < s.len(),
    ensures
        config::client_usable(s, i) <==> {
            &&& key::hex_result(s[i].secret@) matches Ok(b) && b.len() == 32 && key::public_key_read(
                b,
            ) is Ok
            &&& forall|j: int|
                0 <= j < i ==> !((#[trigger] s[j]).local == s[i].local && s[j].protocol
                    == s[i].protocol)
        },
        config::client_fault(s, i, e) ==> match e {
            StateError::Hex(why) => key::hex_result(s[i].secret@) == Err::<Seq<u8>, HexError>(why),
            StateError::Message(m) => m@ == "Invalid public secret length"@ && (key::hex_result(
                s[i].secret@,
            ) matches Ok(b) && b.len() != 32),
            StateError::Client(ClientError::TunnelAlreadyExists(a, p)) => a == s[i].local && p
                == s[i].protocol && exists|j: int|
                0 <= j < i && (#[trigger] s[j]).local == a && s[j].protocol == p,
            StateError::Client(ClientError::InvalidPublicKey(m)) => key::hex_result(
                s[i].secret@,
            ) matches Ok(b) && key::public_key_read(b) == Err::<Seq<u8>, Seq<char>>(m@),
            _ => false,
        },
{
}

/// A connection is given up once it has been silent for twenty seconds, and not before; a clock that
/// was set back does not count.
pub proof fn lemma_given_up_after_twenty_seconds(c: LocalClientConnection, now: u64)
    ensures
        c.spec_timed_out(now) <==> now >= c.last_active + 20,
        now >= c.last_active ==> c.idle_secs(now) == now - c.last_active,
        now < c.last_active ==> c.idle_secs(now) == 0,
{
}

/// What happens to one direction of a forwarder leaves the other as it is, and the ends of the
/// connection too; and only data that came through counts as traffic.
pub proof fn lemma_directions_are_separate(
    f: Forwarder,
    side: Side,
    event: PumpEvent,
    now: u64,
    after: Forwarder,
    action: PumpAction,
)
    requires
        f.pumps(side, event, now, after, action),
    ensures
        side is Tunnel ==> after.from_local == f.from_local,
        side is Local ==> after.from_tunnel == f.from_tunnel,
        after.connection.client_local_addr == f.connection.client_local_addr,
        after.connection.client_virtual_addr == f.connection.client_virtual_addr,
        after.connection.last_active == (if event matches PumpEvent::Read(Some(data)) && data@.len()
            > 0 {
            now
        } else {
            f.connection.last_active
        }),
        action is Write <==> (event matches PumpEvent::Read(Some(data)) && data@.len() > 0),
        action matches PumpAction::Write(w) ==> event == PumpEvent::Read(Some(w)),
{
}

/// A direction ends at the end of what it reads, at the stop signal, when the connection has been
/// silent too long and when it cannot write; else it goes on. One that cannot read waits.
pub proof fn lemma_direction_ends(
    f: Forwarder,
    side: Side,
    event: PumpEvent,
    now: u64,
    after: Forwarder,
    action: PumpAction,
)
    requires
        f.pumps(side, event, now, after, action),
    ensures
        ({
            let half = if side is Tunnel {
                after.from_tunnel
            } else {
                after.from_local
            };
            let was = if side is Tunnel {
                f.from_tunnel
            } else {
                f.from_local
            };
            match event {
                PumpEvent::Read(None) => action is End && half is Ended,
                PumpEvent::Read(Some(data)) => if data@.len() == 0 {
                    action is End && half is Ended
                } else {
                    half is Running
                },
                PumpEvent::Stop(stop) => if stop {
                    action is End && half is Ended
                } else {
                    action is Again && half is Running
                },
                PumpEvent::Slept => if now >= f.connection.last_active + 20 {
                    action is End && half is Ended
                } else {
                    action is Again && half is Running
                },
                PumpEvent::WriteFailed => action is End && half is Died,
                PumpEvent::ReadFailed => action is Hold && half is Deaf,
                PumpEvent::Peeked(from) => half == was && (action is Receive || action is Again)
                    && (action is Receive <==> from == f.connection.client_local_addr),
                PumpEvent::Missed => half == was && action is Again,
            }
        }),
{
}

/// A connection is over when both directions have ended, or at once when one could not write.
pub proof fn lemma_over_when_both_ended(f: Forwarder)
    ensures
        f.spec_is_over() <==> f.from_tunnel == Half::Died || f.from_local == Half::Died || (
        f.from_tunnel == Half::Ended && f.from_local == Half::Ended),
{
}

/// A connection is on the list, as it is, until it is over, and is taken off once; the others on the
/// list stay as they are, and so does another connection that has taken its key.
pub proof fn lemma_listed_until_over(
    list: Map<SocketAddr, LocalClientConnection>,
    key: SocketAddr,
    before: Forwarder,
    after: Forwarder,
)
    ensures
        ({
            let l = net::listed_after(list, key, before, after);
            &&& before.spec_is_over() ==> l == list
            &&& !before.spec_is_over() && after.spec_is_over() ==> l == list.remove(key)
            &&& !before.spec_is_over() && !after.spec_is_over() ==> l.dom() == list.dom()
            &&& !before.spec_is_over() && !after.spec_is_over() && list.contains_key(key)
                ==> l[key] == if list[key].client_local_addr == after.connection.client_local_addr
                && list[key].client_virtual_addr == after.connection.client_virtual_addr {
                after.connection
            } else {
                list[key]
            }
            &&& forall|other: SocketAddr|
                other != key && list.contains_key(other) ==> #[trigger] l.contains_key(other)
                    && l[other] == list[other]
        }),
{
    assert(net::shown(list, key, after.connection).dom() =~= list.dom());
}

/// The listener leaves an application alone exactly where the tunnel carries datagrams and the
/// application is on the list.
pub proof fn lemma_listed_datagrams_are_left(
    protocol: TunnelProtocol,
    connections: Map<SocketAddr, LocalClientConnection>,
    from: SocketAddr,
)
    ensures
        protocol == TunnelProtocol::Tcp ==> !client::already_tunneled(protocol, connections, from),
        protocol == TunnelProtocol::Udp ==> (client::already_tunneled(protocol, connections, from)
            <==> connections.contains_key(from)),
{
}

/// A new connection belongs to the application that it came from.
pub proof fn lemma_new_connection_belongs(from: SocketAddr)
    ensures
        client::new_connection(from).client_local_addr == from,
        client::new_connection(from).client_virtual_addr == (SocketAddr::V4 { ip: 0, port: 0 }),
        client::new_connection(from).last_active == 0,
{
}

/// The packet that announces a connection is read by the host as the address that the connection
/// came from; an IPv6 address comes without flow label and scope.
pub proof fn lemma_packet_names_its_source(from: SocketAddr)
    ensures
        Client2HostControlMsg::read((Client2HostControlMsg::ConnReq { local_addr: from }).wire())
            == Ok::<Client2HostControlMsg, DecodeError>(
            Client2HostControlMsg::ConnReq {
                local_addr: match from {
                    SocketAddr::V4 { ip, port } => SocketAddr::V4 { ip, port },
                    SocketAddr::V6 { ip, port, flowinfo, scope_id } => SocketAddr::V6 {
                        ip,
                        port,
                        flowinfo: 0,
                        scope_id: 0,
                    },
                },
            },
        ),
{
    let msg = Client2HostControlMsg::ConnReq { local_addr: from };
    msg.lemma_read_wire(seq![]);
    assert(msg.wire() + Seq::<u8>::empty() =~= msg.wire());
}

/// What a tunnel tells of itself is what it is. A host tunnel runs while it is open and a client
/// tunnel while it is connected.
pub proof fn lemma_tunnels_tell_what_they_are(h: HostTunnel, c: ClientTunnel)
    ensures
        h.spec_secret() == h.secret@,
        h.spec_protocol() == h.protocol,
        h.spec_is_running() == h.is_open,
        TunnelCommon::spec_name(&h) == h.name@,
        h.spec_addr() == h.host_addr,
        h.running_props is None ==> h.spec_num_active_connections() == 0,
        c.spec_secret() == c.secret@,
        c.spec_protocol() == c.protocol,
        c.spec_is_running() == c.is_connected,
        TunnelCommon::spec_name(&c) == c.name@,
        c.spec_addr() == c.tunnel_addr,
        c.running_props is None ==> c.spec_num_active_connections() == 0,
        c.running_props matches Some(l) ==> c.spec_num_active_connections() == l@.dom().len(),
{
}

/// The connections of a host tunnel are those of all its clients together: none without clients, and
/// a client that leaves takes its connections with it.
pub proof fn lemma_connections_add_up(clients: ConnectedClients, peer: PublicKey)
    requires
        clients.wf(),
        clients.tunnel_clients@.dom().finite(),
    ensures
        clients.tunnel_clients@ == Map::<PublicKey, ConnectedClient>::empty()
            ==> clients.connections() == 0,
        clients.tunnel_clients@.contains_key(peer) ==> clients.connections()
            == clients.tunnel_clients@[peer].local_connections@.dom().len() + table::map_total(
            clients.tunnel_clients@.remove(peer),
            |c: ConnectedClient| c.local_connections@.dom().len(),
        ),
{
    let f = |c: ConnectedClient| c.local_connections@.dom().len();
    if clients.tunnel_clients@ == Map::<PublicKey, ConnectedClient>::empty() {
        assert(clients.tunnel_clients@.dom() =~= Set::empty());
    }
    if clients.tunnel_clients@.contains_key(peer) {
        table::lemma_map_total_remove(clients.tunnel_clients@, f, peer);
    }
}

/// A tunnel that was created has the properties that were asked for, and does not run.
pub proof fn lemma_new_tunnels_are_as_asked(
    h: HostTunnel,
    c: ClientTunnel,
    local_addr: SocketAddr,
    name: String,
    secret: [u8; 32],
    protocol: TunnelProtocol,
)
    ensures
        h.is_new(local_addr, name, secret, protocol) <==> h.name == name && h.secret@ == secret@
            && h.host_addr == local_addr && h.protocol == protocol && !h.is_open
            && h.running_props is None,
        c.is_new(local_addr, name, secret, protocol) <==> c.name == name && c.secret@ == secret@
            && key::public_key_read(c.secret@) is Ok && c.tunnel_addr == local_addr && c.protocol
            == protocol && !c.is_connected && c.running_props is None,
        client::port_at(local_addr, protocol).addr == local_addr,
        client::port_at(local_addr, protocol).protocol == protocol,
{
}

/// A client tunnel whose place is taken is told with the place that it was asked for.
pub proof fn lemma_taken_place_is_told(addr: SocketAddr, protocol: TunnelProtocol)
    ensures
        ClientError::TunnelAlreadyExists(addr, protocol).display() == "Tunnel with local address "@
            + addr.display() + "/"@ + (match protocol {
            TunnelProtocol::Tcp => "tcp"@,
            TunnelProtocol::Udp => "udp"@,
        }) + " already exists"@,
{
}

/// A connection that is looked at again after the time it has left, without traffic in between, is
/// given up then; and not a second earlier.
pub proof fn lemma_time_left_runs_out(
    c: LocalClientConnection,
    now: u64,
    left: Duration,
    later: u64,
    over: bool,
)
    requires
        call_ensures(LocalClientConnection::time_left, (&c, now), left),
        call_ensures(LocalClientConnection::timed_out, (&c, later), over),
        now >= c.last_active,
    ensures
        now >= c.last_active + 20 ==> left.nanos == 0,
        now < c.last_active + 20 ==> left.nanos == (c.last_active + 20 - now) * 1_000_000_000,
        over <==> later >= c.last_active + 20,
{
}

/// A listener forwards an application, announced as coming from where it is, unless its datagrams
/// are forwarded already; it ends for the stop signal only.
pub proof fn lemma_listener_announces(t: ClientTunnel, event: ListenEvent, r: ListenAction)
    requires
        t.wf(),
        t.is_connected,
        call_ensures(ClientTunnel::listen, (&t, event), r),
    ensures
        r is End <==> event == ListenEvent::Stop(true),
        r is Hold <==> event is Failed,
        r is Forward <==> (event matches ListenEvent::Local(from) && !(t.protocol
            == TunnelProtocol::Udp && t.running_props->0@.contains_key(from))),
        event matches ListenEvent::Local(from) ==> (r matches ListenAction::Forward {
            connection,
            packet,
        } ==> connection.client_local_addr == from && Client2HostControlMsg::read(packet@) == Ok::<
            Client2HostControlMsg,
            DecodeError,
        >(
            Client2HostControlMsg::ConnReq {
                local_addr: match from {
                    SocketAddr::V4 { ip, port } => SocketAddr::V4 { ip, port },
                    SocketAddr::V6 { ip, port, flowinfo, scope_id } => SocketAddr::V6 {
                        ip,
                        port,
                        flowinfo: 0,
                        scope_id: 0,
                    },
                },
            },
        )),
{
    if let ListenEvent::Local(from) = event {
        lemma_packet_names_its_source(from);
    }
}

/// A packet that was sent is received as it was.
pub proof fn lemma_sent_packet_is_received(
    local_addr: SocketAddr,
    sent: Vec<u8>,
    received: &[u8],
    r: Result<Client2HostControlMsg, ReceivePacketError>,
)
    requires
        local_addr is V4,
        call_ensures(
            send_packet::<Client2HostControlMsg>,
            (&Client2HostControlMsg::ConnReq { local_addr },),
            sent,
        ),
        received@ == sent@,
        call_ensures(receive_packet::<Client2HostControlMsg>, (received,), r),
    ensures
        r == Ok::<Client2HostControlMsg, ReceivePacketError>(
            Client2HostControlMsg::ConnReq { local_addr },
        ),
{
    lemma_packet_names_its_source(local_addr);
}

/// Answers on a shared socket go to the application that the connection belongs to, from the start.
pub proof fn lemma_answers_go_to_the_application(
    c: LocalClientConnection,
    now: u64,
    f: Forwarder,
    to: SocketAddr,
)
    requires
        call_ensures(Forwarder::new, (c, now), f),
        call_ensures(Forwarder::destination, (&f,), to),
    ensures
        to == c.client_local_addr,
        f.connection.client_virtual_addr == c.client_virtual_addr,
        f.connection.last_active == now,
        f.from_tunnel == Half::Running,
        f.from_local == Half::Running,
{
}

/// A tunnel starts with its own key unless it runs already.
pub proof fn lemma_tunnels_start_once(
    h: HostTunnel,
    c: ClientTunnel,
    r: Result<SecretKey, HostError>,
    q: Result<PublicKey, ClientError>,
)
    requires
        call_ensures(HostTunnel::start, (&h,), r),
        call_ensures(ClientTunnel::connect, (&c,), q),
    ensures
        r is Ok <==> !h.is_open,
        r matches Ok(k) ==> k == h.secret,
        r matches Err(e) ==> e == HostError::TunnelAlreadyOpen,
        q is Ok <==> !c.is_connected,
        q matches Ok(k) ==> k == c.secret,
        q matches Err(e) ==> e == ClientError::AlreadyConnected,
{
}

/// What is wrong with the form of a secret is told: that it is not hexadecimal, and why, or in the
/// given words that it is too short or too long.
pub proof fn lemma_bad_secret_is_told(secret: Seq<char>, words: Seq<char>, e: StateError)
    requires
        config::secret_fault(secret, words, e),
    ensures
        match e {
            StateError::Hex(why) => key::hex_result(secret) == Err::<Seq<u8>, HexError>(why),
            StateError::Message(m) => m@ == words && (key::hex_result(secret) matches Ok(b)
                && b.len() != 32),
            StateError::Client(_) => false,
        },
{
}

/// There is one kind of packet; any other number in its place is refused.
pub proof fn lemma_other_packets_are_refused(b: Seq<u8>)
    requires
        b.len() > 0,
        1 <= b[0] <= 250,
    ensures
        Client2HostControlMsg::read(b) == Err::<Client2HostControlMsg, DecodeError>(
            DecodeError::UnexpectedVariant {
                of: VariantType::Client2HostControlMsg,
                variant: b[0] as u32,
            },
        ),
{
}

/// An error that has a cause is told with that cause.
pub proof fn lemma_errors_tell_their_cause(h: HostError, c: ClientError, p: ReceivePacketError)
    ensures
        match h {
            HostError::TunnelAlreadyExists(a) => h.display() == "Tunnel with local addr "@
                + a.display() + " already exists"@,
            HostError::FailedToCreateEndpoint(m) => m@.is_suffix_of(h.display()),
            HostError::FailedToAcceptConnection(m) => m@.is_suffix_of(h.display()),
            HostError::FailedToCreateStream(m) => m@.is_suffix_of(h.display()),
            HostError::IoError(m) => m@.is_suffix_of(h.display()),
            HostError::WriteError(m) => m@.is_suffix_of(h.display()),
            HostError::ReadError(m) => m@.is_suffix_of(h.display()),
            HostError::ConnectionError(m) => m@.is_suffix_of(h.display()),
            HostError::ReceivePacketError(e) => e.display().is_suffix_of(h.display()),
            HostError::UnexpectedControlMessage(Client2HostControlMsg::ConnReq { local_addr }) =>
                h.display() == "Unexpected control message: ConnReq { local_addr: "@
                + local_addr.display() + " }"@,
            _ => true,
        },
        match c {
            ClientError::FailedToCreateEndpoint(m) => m@.is_suffix_of(c.display()),
            ClientError::IoError(m) => m@.is_suffix_of(c.display()),
            ClientError::WriteError(m) => m@.is_suffix_of(c.display()),
            ClientError::ReadError(m) => m@.is_suffix_of(c.display()),
            ClientError::InvalidPublicKey(m) => m@.is_suffix_of(c.display()),
            ClientError::FailedToConnect(m) => m@.is_suffix_of(c.display()),
            ClientError::FailedToAcceptStream(m) => m@.is_suffix_of(c.display()),
            ClientError::ConnectionError(m) => m@.is_suffix_of(c.display()),
            _ => true,
        },
        match p {
            ReceivePacketError::Io(m) => m@.is_suffix_of(p.display()),
            ReceivePacketError::Decode(e) => e.display().is_suffix_of(p.display()),
            ReceivePacketError::Connection(m) => m@.is_suffix_of(p.display()),
            ReceivePacketError::Read(m) => m@.is_suffix_of(p.display()),
        },
{
    match h {
        HostError::FailedToCreateEndpoint(m) => {
            text::lemma_sum_ends("Failed to create endpoint: "@, m@);
        },
        HostError::FailedToAcceptConnection(m) => {
            text::lemma_sum_ends("Failed to accept connection: "@, m@);
        },
        HostError::FailedToCreateStream(m) => {
            text::lemma_sum_ends("Failed to create stream: "@, m@);
        },
        HostError::IoError(m) => {
            text::lemma_sum_ends("IO error: "@, m@);
        },
        HostError::WriteError(m) => {
            text::lemma_sum_ends("Write error: "@, m@);
        },
        HostError::ReadError(m) => {
            text::lemma_sum_ends("Read error: "@, m@);
        },
        HostError::ConnectionError(m) => {
            text::lemma_sum_ends("Connection error: "@, m@);
        },
        HostError::ReceivePacketError(e) => {
            text::lemma_sum_ends("Receive packet error: "@, e.display());
        },
        _ => {},
    }
    match c {
        ClientError::FailedToCreateEndpoint(m) => {
            text::lemma_sum_ends("Failed to create endpoint: "@, m@);
        },
        ClientError::IoError(m) => {
            text::lemma_sum_ends("IO error: "@, m@);
        },
        ClientError::WriteError(m) => {
            text::lemma_sum_ends("Write error: "@, m@);
        },
        ClientError::ReadError(m) => {
            text::lemma_sum_ends("Read error: "@, m@);
        },
        ClientError::InvalidPublicKey(m) => {
            text::lemma_sum_ends("Invalid public key: "@, m@);
        },
        ClientError::FailedToConnect(m) => {
            text::lemma_sum_ends("Failed to connect: "@, m@);
        },
        ClientError::FailedToAcceptStream(m) => {
            text::lemma_sum_ends("Failed to accept stream: "@, m@);
        },
        ClientError::ConnectionError(m) => {
            text::lemma_sum_ends("Connection error: "@, m@);
        },
        _ => {},
    }
    match p {
        ReceivePacketError::Io(m) => {
            text::lemma_sum_ends("io error: "@, m@);
        },
        ReceivePacketError::Decode(e) => {
            text::lemma_sum_ends("decode error: "@, e.display());
        },
        ReceivePacketError::Connection(m) => {
            text::lemma_sum_ends("connection error: "@, m@);
        },
        ReceivePacketError::Read(m) => {
            text::lemma_sum_ends("read error: "@, m@);
        },
    }
}

/// A client that connects is served and counted, unless it is there already; when its connection
/// ends, the clients are as they were before.
pub proof fn lemma_client_is_served_until_gone(
    t: &mut HostTunnel,
    g: &mut HostTunnel,
    peer: PublicKey,
    r: AcceptAction,
)
    requires
        old(t).wf(),
        old(t).is_open,
        call_ensures(HostTunnel::accept, (t, AcceptEvent::Connected(peer)), r),
        *old(g) == *final(t),
        call_ensures(HostTunnel::client_gone, (g, peer), ()),
    ensures
        old(t).running_props->0.tunnel_clients@.contains_key(peer) <==> r is Ignore,
        r is Ignore || r == AcceptAction::Serve(peer),
        final(t).running_props->0.tunnel_clients@.contains_key(peer),
        final(t).running_props->0.tunnel_clients@.remove(peer)
            == old(t).running_props->0.tunnel_clients@.remove(peer),
        final(g).running_props->0.tunnel_clients@
            == old(t).running_props->0.tunnel_clients@.remove(peer),
{
}

/// A connection of a client is listed as coming from where the client says, and goes to the service
/// of the tunnel; the other clients are not touched.
pub proof fn lemma_connection_goes_to_the_service(
    t: &mut HostTunnel,
    peer: PublicKey,
    local_addr: SocketAddr,
    r: VirtualClient,
)
    requires
        old(t).wf(),
        old(t).is_open,
        old(t).running_props->0.tunnel_clients@.contains_key(peer),
        call_ensures(
            HostTunnel::handle_connection,
            (t, peer, Client2HostControlMsg::ConnReq { local_addr }),
            r,
        ),
    ensures
        r.connect == old(t).host_addr,
        r.protocol == old(t).protocol,
        r.ipv4 <==> old(t).host_addr is V4,
        r.connection.client_local_addr == local_addr,
        r.connection.client_virtual_addr is V4 <==> local_addr is V4,
        final(t).running_props->0.tunnel_clients@.remove(peer)
            == old(t).running_props->0.tunnel_clients@.remove(peer),
        ({
            let list = final(t).running_props->0.tunnel_clients@[peer].local_connections@;
            &&& list.contains_key(r.connection.client_virtual_addr)
            &&& list[r.connection.client_virtual_addr] == r.connection
        }),
{
}

/// A host tunnel runs from when it is opened until it is stopped or its endpoint closes; it has no
/// clients at first.
pub proof fn lemma_host_runs_while_open(
    t: &mut HostTunnel,
    s: &mut HostTunnel,
    c: &mut HostTunnel,
    r: Result<bool, HostError>,
)
    requires
        call_ensures(HostTunnel::opened, (t,), ()),
        *old(s) == *final(t),
        call_ensures(HostTunnel::stop, (s,), r),
        *old(c) == *final(t),
        call_ensures(HostTunnel::endpoint_closed, (c,), ()),
    ensures
        final(t).is_open,
        final(t).running_props matches Some(p) && p.tunnel_clients@.dom() == Set::<
            PublicKey,
        >::empty(),
        r == Ok::<bool, HostError>(true),
        !final(s).is_open,
        !final(c).is_open,
        final(s).secret == old(t).secret,
        final(c).secret == old(t).secret,
        final(s).host_addr == old(t).host_addr,
        final(c).host_addr == old(t).host_addr,
{
}

/// A client tunnel runs from when it is connected until it is disconnected or its host is gone; a
/// connection is listed once its stream is open.
pub proof fn lemma_client_runs_while_connected(
    t: &mut ClientTunnel,
    o: &mut ClientTunnel,
    d: &mut ClientTunnel,
    g: &mut ClientTunnel,
    connection: LocalClientConnection,
    r: Result<(), ClientError>,
)
    requires
        call_ensures(ClientTunnel::connected, (t,), ()),
        *old(o) == *final(t),
        call_ensures(ClientTunnel::stream_opened, (o, connection), ()),
        *old(d) == *final(o),
        call_ensures(ClientTunnel::disconnect, (d,), r),
        *old(g) == *final(o),
        call_ensures(ClientTunnel::host_gone, (g,), ()),
    ensures
        final(t).is_connected,
        final(o).is_connected,
        final(o).running_props->0@ == Map::<SocketAddr, LocalClientConnection>::empty().insert(
            connection.client_local_addr,
            connection,
        ),
        r == Ok::<(), ClientError>(()),
        !final(d).is_connected,
        !final(g).is_connected,
        final(g).running_props is None,
        final(d).secret == old(t).secret,
        final(g).secret == old(t).secret,
{
}

/// A forwarder on the client shows its traffic under the address of its application, and is taken
/// off there when it is over.
pub proof fn lemma_client_list_follows_the_forwarder(
    f: &mut Forwarder,
    list: &mut Table<SocketAddr, LocalClientConnection>,
    side: Side,
    event: PumpEvent,
    now: u64,
    r: PumpAction,
)
    requires
        old(list).wf(),
        old(f).expects(side, event, false),
        !old(f).spec_is_over(),
        call_ensures(net::bi_tcp_stream_client, (f, list, side, event, now), r),
    ensures
        final(f).spec_is_over() ==> final(list)@ == old(list)@.remove(
            old(f).connection.client_local_addr,
        ),
        !final(f).spec_is_over() ==> final(list)@.dom() == old(list)@.dom(),
        r is Write <==> (event matches PumpEvent::Read(Some(data)) && data@.len() > 0),
        r matches PumpAction::Write(w) ==> event == PumpEvent::Read(Some(w))
            && final(f).connection.last_active == now,
{
    lemma_listed_until_over(
        old(list)@,
        old(f).connection.client_local_addr,
        *old(f),
        *final(f),
    );
    lemma_directions_are_separate(*old(f), side, event, now, *final(f), r);
}

/// A forwarder on the host shows its traffic under the virtual address of its connection, and is
/// taken off there when it is over.
pub proof fn lemma_host_list_follows_the_forwarder(
    f: &mut Forwarder,
    client: &mut ConnectedClient,
    side: Side,
    event: PumpEvent,
    now: u64,
    r: PumpAction,
)
    requires
        old(client).wf(),
        old(f).expects(side, event, false),
        !old(f).spec_is_over(),
        call_ensures(net::bi_tcp_stream_host, (f, client, side, event, now), r),
    ensures
        final(f).spec_is_over() ==> final(client).local_connections@
            == old(client).local_connections@.remove(old(f).connection.client_virtual_addr),
        !final(f).spec_is_over() ==> final(client).local_connections@.dom()
            == old(client).local_connections@.dom(),
        r is Write <==> (event matches PumpEvent::Read(Some(data)) && data@.len() > 0),
        r matches PumpAction::Write(w) ==> event == PumpEvent::Read(Some(w))
            && final(f).connection.last_active == now,
{
    lemma_listed_until_over(
        old(client).local_connections@,
        old(f).connection.client_virtual_addr,
        *old(f),
        *final(f),
    );
    lemma_directions_are_separate(*old(f), side, event, now, *final(f), r);
}

} // verus!
