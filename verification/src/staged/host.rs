//! Host tunnels.

use vstd::prelude::*;

use crate::addr;
use crate::addr::{any_addr, SocketAddr};
use crate::key;
use crate::key::{PublicKey, SecretKey};
use crate::staged::common::Protocol;
use crate::staged::config::{copy_name, HostTunnelConfig};
use crate::table::Table;

verus! {

/// What can go wrong with a host tunnel. Failures of the transport carry its own description.
#[derive(Debug, PartialEq, Eq)]
pub enum HostError {
    EndpointBindError(String),
    IoError(String),
    ConnectionError(String),
    WriteError(String),
}

impl HostError {
    /// The error in words.
    pub open spec fn display(self) -> Seq<char> {
        match self {
            HostError::EndpointBindError(m) => "Failed to bind iroh endpoint: "@ + m@,
            HostError::IoError(m) => "IO error: "@ + m@,
            HostError::ConnectionError(m) => "Connection error: "@ + m@,
            HostError::WriteError(m) => "Write error: "@ + m@,
        }
    }

    /// The error in words.
    pub fn to_text(&self) -> (r: String)
        ensures
            r@ == self.display(),
    {
        match self {
            HostError::EndpointBindError(m) => String::from_str("Failed to bind iroh endpoint: ").concat(m.as_str()),
            HostError::IoError(m) => String::from_str("IO error: ").concat(m.as_str()),
            HostError::ConnectionError(m) => String::from_str("Connection error: ").concat(m.as_str()),
            HostError::WriteError(m) => String::from_str("Write error: ").concat(m.as_str()),
        }
    }
}

/// Marker type for a stopped tunnel
#[derive(Debug, Clone, Copy, PartialEq, Eq, Structural)]
pub struct Stopped;

/// Marker type for a running tunnel
#[derive(Debug)]
pub struct Running<H>(pub ActiveProps<H>);

/// A connection that is listed.
#[derive(Debug, PartialEq, Eq)]
pub struct ActiveConnection<H> {
    /// The session that listed it.
    pub id: u64,
    pub handle: H,
}

/// Data available on an active host tunnel. `H` is the handle of a connection with its forwarder.
#[derive(Debug)]
pub struct ActiveProps<H> {
    /// Maps the local/virtual address of the client to the underlying connection.
    pub active_connections: Table<SocketAddr, ActiveConnection<H>>,
    /// The number of the next session.
    pub next_id: u64,
}

/// The connections after the session `id` at a virtual address has closed: its connection goes only
/// if no newer session has taken the address.
pub open spec fn without_session<H>(
    connections: Map<SocketAddr, ActiveConnection<H>>,
    at: SocketAddr,
    id: u64,
) -> Map<SocketAddr, ActiveConnection<H>> {
    if connections.contains_key(at) && connections[at].id == id {
        connections.remove(at)
    } else {
        connections
    }
}

/// How a connection of a client is set up.
#[derive(Debug, PartialEq, Eq)]
pub struct ClientConnection {
    /// The address to bind first.
    pub client_addr: SocketAddr,
    /// The virtual address assigned to this client, which is the local address to connect to.
    pub virtual_addr: SocketAddr,
    /// What opens the stream.
    pub opening: Vec<u8>,
}

impl ClientConnection {
    /// The connection of a client to the local address.
    pub fn new(local: SocketAddr, proto: Protocol) -> (r: Self)
        requires
            proto is Tcp,
        ensures
            r.client_addr == addr::unspecified(local.spec_is_ipv4()),
            r.virtual_addr == local,
            r.opening@ == seq![0u8],
    {
        let opening: Vec<u8> = vec![0u8];
        assert(opening@ =~= seq![0u8]);
        ClientConnection { client_addr: any_addr(local.is_ipv4()), virtual_addr: local, opening }
    }
}

/// A tunnel that exposes connections from our LAN to other peers.
#[derive(Debug)]
pub struct HostTunnel<State = Stopped> {
    pub name: Option<String>,
    pub secret: SecretKey,
    /// The local address this tunnel exposes.
    pub addr: SocketAddr,
    pub proto: Protocol,
    pub state: State,
}

impl HostTunnel<Stopped> {
    /// Get the name of the tunnel
    pub fn name(&self) -> (r: Option<&String>)
        ensures
            match self.name {
                Some(n) => r matches Some(m) && *m == n,
                None => r is None,
            },
    {
        match &self.name {
            Some(n) => Some(n),
            None => None,
        }
    }

    /// Get the secret key of the tunnel
    pub fn secret(&self) -> (r: &SecretKey)
        ensures
            *r == self.secret,
    {
        &self.secret
    }

    /// Get the public key of the tunnel
    pub fn public_key(&self) -> (r: PublicKey)
        ensures
            r@ == key::public_key_of(self.secret@),
            r.wf(),
    {
        self.secret.public()
    }

    /// Get the address of the tunnel
    pub fn address(&self) -> (r: SocketAddr)
        ensures
            r == self.addr,
    {
        self.addr
    }

    /// Get the protocol of the tunnel
    pub fn protocol(&self) -> (r: Protocol)
        ensures
            r == self.proto,
    {
        self.proto
    }

    /// Create a new stopped tunnel
    pub fn new(name: Option<String>, secret: SecretKey, addr: SocketAddr, proto: Protocol) -> (r:
        Self)
        ensures
            r == (HostTunnel { name, secret, addr, proto, state: Stopped }),
    {
        HostTunnel { name, secret, addr, proto, state: Stopped }
    }

    /// The tunnel that a configuration describes.
    pub open spec fn described(config: HostTunnelConfig) -> HostTunnel<Stopped> {
        HostTunnel {
            name: config.name,
            secret: config.secret,
            addr: config.local_addr,
            proto: config.proto,
            state: Stopped,
        }
    }

    /// Create a host tunnel from config
    pub fn from_config(config: &HostTunnelConfig) -> (r: Self)
        ensures
            r == Self::described(*config),
    {
        Self::new(copy_name(&config.name), config.secret, config.local_addr, config.proto)
    }

    /// Start the tunnel, transitioning to the Running state. Its endpoint has been bound with the
    /// tunnel's secret key.
    pub fn start<H>(self) -> (r: HostTunnel<Running<H>>)
        ensures
            r.name == self.name,
            r.secret == self.secret,
            r.addr == self.addr,
            r.proto == self.proto,
            r.wf(),
            r.connections() == Map::<SocketAddr, ActiveConnection<H>>::empty(),
            r.state.0.next_id == 0,
    {
        HostTunnel {
            name: self.name,
            secret: self.secret,
            addr: self.addr,
            proto: self.proto,
            state: Running(ActiveProps { active_connections: Table::new(), next_id: 0 }),
        }
    }
}

impl<H> HostTunnel<Running<H>> {
    /// Every virtual address has at most one connection.
    pub open spec fn wf(&self) -> bool {
        self.state.0.active_connections.wf()
    }

    /// The connections by virtual address.
    pub open spec fn connections(self) -> Map<SocketAddr, ActiveConnection<H>> {
        self.state.0.active_connections@
    }

    /// Everything but the connections is the same.
    pub open spec fn same_but_connections(self, other: HostTunnel<Running<H>>) -> bool {
        &&& self.name == other.name
        &&& self.secret == other.secret
        &&& self.addr == other.addr
        &&& self.proto == other.proto
    }

    /// The number of a new session, which no session has had before in this run of the tunnel, up
    /// to the range of the numbers.
    pub fn next_session(&mut self) -> (id: u64)
        requires
            old(self).wf(),
        ensures
            final(self).wf(),
            final(self).same_but_connections(*old(self)),
            final(self).connections() == old(self).connections(),
            id == old(self).state.0.next_id,
            final(self).state.0.next_id == old(self).state.0.next_id.wrapping_add(1),
    {
        let id: u64 = self.state.0.next_id;
        self.state.0.next_id = id.wrapping_add(1);
        id
    }

    /// A client has been connected by the session `id`; `handle` is its connection. Gives back the
    /// connection that it replaces, if there is one.
    pub fn connected(&mut self, connection: &ClientConnection, id: u64, handle: H) -> (r: Option<H>)
        requires
            old(self).wf(),
        ensures
            final(self).wf(),
            final(self).same_but_connections(*old(self)),
            final(self).state.0.next_id == old(self).state.0.next_id,
            final(self).connections() == old(self).connections().insert(
                connection.virtual_addr,
                ActiveConnection { id, handle },
            ),
            r is Some <==> old(self).connections().contains_key(connection.virtual_addr),
            r matches Some(h) ==> h == old(self).connections()[connection.virtual_addr].handle,
    {
        match self.state.0.active_connections.insert(
            connection.virtual_addr,
            ActiveConnection { id, handle },
        ) {
            Some(before) => Some(before.handle),
            None => None,
        }
    }

    /// The forwarder of the session `id` has closed: its connection is not counted any more. A
    /// connection that a newer session has put in its place stays.
    pub fn connection_closed(&mut self, virtual_addr: SocketAddr, id: u64) -> (r: Option<H>)
        requires
            old(self).wf(),
        ensures
            final(self).wf(),
            final(self).same_but_connections(*old(self)),
            final(self).state.0.next_id == old(self).state.0.next_id,
            final(self).connections() == without_session(
                old(self).connections(),
                virtual_addr,
                id,
            ),
            r is Some <==> old(self).connections().contains_key(virtual_addr) && old(
                self,
            ).connections()[virtual_addr].id == id,
            r matches Some(h) ==> h == old(self).connections()[virtual_addr].handle,
    {
        let ours: bool = match self.state.0.active_connections.get(virtual_addr) {
            Some(c) => c.id == id,
            None => false,
        };
        if !ours {
            return None;
        }
        match self.state.0.active_connections.remove(virtual_addr) {
            Some(c) => Some(c.handle),
            None => None,
        }
    }

    /// Stop the tunnel. Gives back its connections, which are all to be closed.
    pub fn stop(self) -> (r: (HostTunnel<Stopped>, Table<SocketAddr, ActiveConnection<H>>))
        requires
            self.wf(),
        ensures
            r.0 == (HostTunnel {
                name: self.name,
                secret: self.secret,
                addr: self.addr,
                proto: self.proto,
                state: Stopped,
            }),
            r.1.wf(),
            r.1@ == self.connections(),
    {
        let stopped: HostTunnel<Stopped> = HostTunnel {
            name: self.name,
            secret: self.secret,
            addr: self.addr,
            proto: self.proto,
            state: Stopped,
        };
        (stopped, self.state.0.active_connections)
    }

    /// How many connections there are.
    pub fn num_connections(&self) -> (r: usize)
        requires
            self.wf(),
        ensures
            r == self.connections().dom().len(),
    {
        self.state.0.active_connections.len()
    }
}

/// A tunnel that is started and stopped is as it was.
pub proof fn lemma_stop_undoes_start<H>(
    before: HostTunnel<Stopped>,
    running: HostTunnel<Running<H>>,
    after: HostTunnel<Stopped>,
)
    requires
        running.name == before.name,
        running.secret == before.secret,
        running.addr == before.addr,
        running.proto == before.proto,
        after == (HostTunnel {
            name: running.name,
            secret: running.secret,
            addr: running.addr,
            proto: running.proto,
            state: Stopped,
        }),
    ensures
        after == before,
{
    assert(before.state == Stopped);
}

/// A connection that comes and goes is counted while it is there: a tunnel without connections has
/// one, and none again when it closes.
pub proof fn lemma_connection_is_counted<H>(
    connections: Map<SocketAddr, ActiveConnection<H>>,
    at: SocketAddr,
    id: u64,
    handle: H,
)
    requires
        connections.dom().finite(),
        !connections.contains_key(at),
    ensures
        ({
            let more = connections.insert(at, ActiveConnection { id, handle });
            &&& more.dom().len() == connections.dom().len() + 1
            &&& without_session(more, at, id) == connections
        }),
{
    let more = connections.insert(at, ActiveConnection { id, handle });
    assert(more.remove(at) =~= connections);
}

/// When a newer session has taken a virtual address, the end of an older one changes nothing.
pub proof fn lemma_newer_connection_stays<H>(
    connections: Map<SocketAddr, ActiveConnection<H>>,
    at: SocketAddr,
    older: u64,
    newer: u64,
    first: H,
    second: H,
)
    requires
        older != newer,
    ensures
        ({
            let one = connections.insert(at, ActiveConnection { id: older, handle: first });
            let both = one.insert(at, ActiveConnection { id: newer, handle: second });
            &&& without_session(both, at, older) == both
            &&& both.contains_key(at)
        }),
{
}

} // verus!
