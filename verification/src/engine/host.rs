//! Tunnels that the user hosts.

use vstd::prelude::*;

use crate::addr;
use crate::addr::SocketAddr;
use crate::engine::common::{
    Client2HostControlMsg, LocalClientConnection, ReceivePacketError, TunnelCommon,
};
use crate::engine::get_unspecified;
use crate::key::{PublicKey, SecretKey};
use crate::table;
use crate::table::{Key, Table};
use crate::tunnel::TunnelProtocol;

verus! {

/// What can go wrong with a host tunnel. Failures of the transport carry its own description.
#[derive(Debug, PartialEq, Eq)]
pub enum HostError {
    TunnelAlreadyExists(SocketAddr),
    FailedToCreateEndpoint(String),
    FailedToAcceptConnection(String),
    FailedToCreateStream(String),
    IoError(String),
    WriteError(String),
    ReadError(String),
    ConnectionError(String),
    TunnelNotRunning,
    ReceivePacketError(ReceivePacketError),
    UnexpectedControlMessage(Client2HostControlMsg),
    TunnelAlreadyOpen,
}

impl HostError {
    /// The error in words.
    pub open spec fn display(self) -> Seq<char> {
        match self {
            HostError::TunnelAlreadyExists(a) => "Tunnel with local addr "@ + a.display()
                + " already exists"@,
            HostError::FailedToCreateEndpoint(m) => "Failed to create endpoint: "@ + m@,
            HostError::FailedToAcceptConnection(m) => "Failed to accept connection: "@ + m@,
            HostError::FailedToCreateStream(m) => "Failed to create stream: "@ + m@,
            HostError::IoError(m) => "IO error: "@ + m@,
            HostError::WriteError(m) => "Write error: "@ + m@,
            HostError::ReadError(m) => "Read error: "@ + m@,
            HostError::ConnectionError(m) => "Connection error: "@ + m@,
            HostError::TunnelNotRunning => "Tunnel is not running"@,
            HostError::ReceivePacketError(e) => "Receive packet error: "@ + e.display(),
            HostError::UnexpectedControlMessage(Client2HostControlMsg::ConnReq { local_addr }) =>
                "Unexpected control message: ConnReq { local_addr: "@ + local_addr.display()
                + " }"@,
            HostError::TunnelAlreadyOpen => "Tunnel is already open"@,
        }
    }

    /// The error in words.
    pub fn to_text(&self) -> (r: String)
        ensures
            r@ == self.display(),
    {
        match self {
            HostError::TunnelAlreadyExists(a) => String::from_str("Tunnel with local addr ").concat(
                a.to_text().as_str(),
            ).concat(" already exists"),
            HostError::FailedToCreateEndpoint(m) => String::from_str(
                "Failed to create endpoint: ",
            ).concat(m.as_str()),
            HostError::FailedToAcceptConnection(m) => String::from_str(
                "Failed to accept connection: ",
            ).concat(m.as_str()),
            HostError::FailedToCreateStream(m) => String::from_str(
                "Failed to create stream: ",
            ).concat(m.as_str()),
            HostError::IoError(m) => String::from_str("IO error: ").concat(m.as_str()),
            HostError::WriteError(m) => String::from_str("Write error: ").concat(m.as_str()),
            HostError::ReadError(m) => String::from_str("Read error: ").concat(m.as_str()),
            HostError::ConnectionError(m) => String::from_str("Connection error: ").concat(
                m.as_str(),
            ),
            HostError::TunnelNotRunning => String::from_str("Tunnel is not running"),
            HostError::ReceivePacketError(e) => String::from_str("Receive packet error: ").concat(
                e.to_text().as_str(),
            ),
            HostError::UnexpectedControlMessage(Client2HostControlMsg::ConnReq { local_addr }) =>
                String::from_str("Unexpected control message: ConnReq { local_addr: ").concat(
                local_addr.to_text().as_str(),
            ).concat(" }"),
            HostError::TunnelAlreadyOpen => String::from_str("Tunnel is already open"),
        }
    }
}

impl Key for [u8; 32] {
    fn same(&self, other: &Self) -> (r: bool) {
        let mut i: usize = 0;
        while i < 32
            invariant
                i <= 32,
                self@.len() == 32,
                other@.len() == 32,
                forall|j: int| 0 <= j < i ==> self@[j] == other@[j],
            decreases 32 - i,
        {
            if self[i] != other[i] {
                assert(self@ != other@);
                return false;
            }
            i = i + 1;
        }
        assert(*self =~= *other);
        true
    }
}

/// The host state.
#[derive(Debug)]
pub struct HostState {
    pub tunnels: Table<[u8; 32], HostTunnel>,
}

impl Default for HostState {
    fn default() -> (r: Self)
        ensures
            r.wf(),
            r.tunnels@ == Map::<[u8; 32], HostTunnel>::empty(),
    {
        Self::new()
    }
}

impl HostState {
    /// Every secret has at most one tunnel.
    pub open spec fn wf(&self) -> bool {
        self.tunnels.wf()
    }

    /// Create a new host state.
    pub fn new() -> (r: Self)
        ensures
            r.wf(),
            r.tunnels@ == Map::<[u8; 32], HostTunnel>::empty(),
    {
        HostState { tunnels: Table::new() }
    }

    /// Get the tunnels.
    pub fn tunnels(&self) -> (r: &Table<[u8; 32], HostTunnel>)
        ensures
            *r == self.tunnels,
    {
        &self.tunnels
    }

    /// Get the tunnels mutable.
    pub fn tunnels_mut(&mut self) -> (r: &mut Table<[u8; 32], HostTunnel>)
        ensures
            *r == old(self).tunnels,
            final(self).tunnels == *final(r),
    {
        &mut self.tunnels
    }

    /// Create a new tunnel, in place of the one with the same secret, if there is one.
    pub fn create_tunnel(
        &mut self,
        local_addr: SocketAddr,
        name: String,
        secret: [u8; 32],
        protocol: TunnelProtocol,
    ) -> (r: &mut HostTunnel)
        requires
            old(self).wf(),
        ensures
            r.is_new(local_addr, name, secret, protocol),
            final(self).wf(),
            final(self).tunnels@ == old(self).tunnels@.insert(secret, *final(r)),
    {
        let tunnel: HostTunnel = HostTunnel {
            name,
            secret: SecretKey::from_bytes(&secret),
            host_addr: local_addr,
            protocol,
            is_open: false,
            running_props: None,
        };
        let ghost before = self.tunnels@;
        let _ = self.tunnels.insert(secret, tunnel);
        match self.tunnels.get_mut(secret) {
            Some(t) => {
                assert forall|x: HostTunnel| #[trigger] before.insert(secret, tunnel).insert(
                    secret,
                    x,
                ) == before.insert(secret, x) by {
                    assert(before.insert(secret, tunnel).insert(secret, x) =~= before.insert(
                        secret,
                        x,
                    ));
                }
                t
            },
            None => {
                assert(false);
                vstd::pervasive::unreached()
            },
        }
    }

    /// The tunnel with this secret.
    pub fn get_tunnel(&self, secret: &[u8; 32]) -> (r: Option<&HostTunnel>)
        requires
            self.wf(),
        ensures
            r is Some <==> self.tunnels@.contains_key(*secret),
            r matches Some(t) ==> *t == self.tunnels@[*secret],
    {
        self.tunnels.get(*secret)
    }

    /// The tunnel with this secret, mutable.
    pub fn get_tunnel_mut(&mut self, secret: &[u8; 32]) -> (r: Option<&mut HostTunnel>)
        requires
            old(self).wf(),
        ensures
            final(self).wf(),
            match r {
                Some(t) => old(self).tunnels@.contains_key(*secret) && *t == old(
                    self,
                ).tunnels@[*secret] && final(self).tunnels@ == old(self).tunnels@.insert(
                    *secret,
                    *final(t),
                ),
                None => !old(self).tunnels@.contains_key(*secret) && final(self).tunnels@ == old(
                    self,
                ).tunnels@,
            },
    {
        self.tunnels.get_mut(*secret)
    }
}

/// A host tunnel will relay traffic to and from the `host_addr` to the connected clients
/// (all clients that know this tunnel's `secret`).
#[derive(Debug)]
pub struct HostTunnel {
    /// The name of the tunnel.
    pub name: String,
    /// The secret allows others to connect to this tunnel.
    /// This value is unique for every existing HostTunnel.
    pub secret: SecretKey,
    /// The local socket address this tunnel is bound to.
    pub host_addr: SocketAddr,
    /// The protocol of the tunnel.
    pub protocol: TunnelProtocol,
    /// If the tunnel is open.
    pub is_open: bool,
    /// The clients of the tunnel while it runs.
    pub running_props: Option<ConnectedClients>,
}

/// Clients connected to the tunnel.
#[derive(Debug)]
pub struct ConnectedClients {
    /// A tunnel can have multiple connected clients.
    pub tunnel_clients: Table<PublicKey, ConnectedClient>,
}

/// A single connected client.
#[derive(Debug)]
pub struct ConnectedClient {
    /// A client can have multiple local connections.
    /// e.g 2 clients running on the same machine connecting to the same tunnel.
    ///
    /// The key is the virtual address of the client (which is used on the host).
    pub local_connections: Table<SocketAddr, LocalClientConnection>,
}

impl ConnectedClient {
    /// Every virtual address has at most one connection.
    pub open spec fn wf(&self) -> bool {
        self.local_connections.wf()
    }
}

impl ConnectedClients {
    /// Every client is listed once, and each is consistent.
    pub open spec fn wf(&self) -> bool {
        &&& self.tunnel_clients.wf()
        &&& forall|k: PublicKey|
            self.tunnel_clients@.contains_key(k) ==> (#[trigger] self.tunnel_clients@[k]).wf()
    }

    /// How many local connections all clients have.
    pub open spec fn connections(self) -> nat {
        table::map_total(
            self.tunnel_clients@,
            |c: ConnectedClient| c.local_connections@.dom().len(),
        )
    }

    fn count(&self) -> (r: usize)
        requires
            self.wf(),
            self.connections() <= usize::MAX,
        ensures
            r == self.connections(),
    {
        let ghost f = |c: ConnectedClient| c.local_connections@.dom().len();
        let ghost mut rest = self.tunnel_clients@;
        let mut sum: usize = 0;
        let mut i: usize = 0;
        proof {
            self.tunnel_clients.lemma_keys();
            assert forall|j: int|
                0 <= j < self.tunnel_clients.key_seq().len() implies rest.contains_key(
                #[trigger] self.tunnel_clients.key_seq()[j],
            ) by {
                assert(self.tunnel_clients.key_seq().to_set().contains(
                    self.tunnel_clients.key_seq()[j],
                ));
            }
        }
        let n: usize = self.tunnel_clients.len();
        while i < n
            invariant
                self.wf(),
                n == self.tunnel_clients.key_seq().len(),
                self.tunnel_clients.key_seq().no_duplicates(),
                i <= n,
                f == (|c: ConnectedClient| c.local_connections@.dom().len()),
                rest.dom().finite(),
                rest.dom().len() == n - i,
                forall|j: int|
                    i <= j < n ==> rest.contains_key(#[trigger] self.tunnel_clients.key_seq()[j])
                        && rest[self.tunnel_clients.key_seq()[j]]
                        == self.tunnel_clients@[self.tunnel_clients.key_seq()[j]],
                table::map_total(self.tunnel_clients@, f) == sum + table::map_total(rest, f),
                table::map_total(self.tunnel_clients@, f) <= usize::MAX,
            decreases n - i,
        {
            let c: &ConnectedClient = self.tunnel_clients.value_at(i);
            proof {
                let k = self.tunnel_clients.key_seq()[i as int];
                self.tunnel_clients.lemma_keys();
                assert(self.tunnel_clients.key_seq().to_set().contains(k));
                assert(self.tunnel_clients@[k].wf());
                table::lemma_map_total_remove(rest, f, k);
                rest = rest.remove(k);
            }
            sum = sum + c.local_connections.len();
            i = i + 1;
        }
        sum
    }
}

/// What happens to the accept loop of a host tunnel.
#[derive(Debug, Clone, Copy)]
pub enum AcceptEvent {
    /// There is no connection.
    Nothing,
    /// A connection could not be established.
    Failed,
    /// A client has connected.
    Connected(PublicKey),
}

/// What the accept loop of a host tunnel does.
#[derive(Debug, Clone, Copy)]
pub enum AcceptAction {
    /// Accept the next connection.
    Next,
    /// The client is connected already: drop the connection and accept the next.
    Ignore,
    /// Serve the client's connection to its end, then accept the next.
    Serve(PublicKey),
}

/// How the backend is reached for one connection of a client.
#[derive(Debug, Clone, Copy, PartialEq, Eq, Structural)]
pub struct VirtualClient {
    pub protocol: TunnelProtocol,
    pub connection: LocalClientConnection,
    /// Whether the socket is of the IPv4 family.
    pub ipv4: bool,
    /// The address to connect to.
    pub connect: SocketAddr,
}

/// A client that connects is counted until it leaves: then the clients are as they were before, and
/// it is no longer among those that are turned away.
pub proof fn lemma_client_comes_and_goes(
    clients: Map<PublicKey, ConnectedClient>,
    peer: PublicKey,
    client: ConnectedClient,
)
    requires
        clients.dom().finite(),
        !clients.contains_key(peer),
    ensures
        clients.insert(peer, client).dom().len() == clients.dom().len() + 1,
        clients.insert(peer, client).remove(peer) == clients,
{
    assert(clients.insert(peer, client).remove(peer) =~= clients);
}

impl HostTunnel {
    /// A tunnel with these properties that has not been started.
    pub open spec fn is_new(
        self,
        local_addr: SocketAddr,
        name: String,
        secret: [u8; 32],
        protocol: TunnelProtocol,
    ) -> bool {
        &&& self.name == name
        &&& self.secret@ == secret@
        &&& self.host_addr == local_addr
        &&& self.protocol == protocol
        &&& !self.is_open
        &&& self.running_props is None
    }

    /// An open tunnel has clients, and they are consistent.
    pub open spec fn wf(&self) -> bool {
        &&& self.is_open == (self.running_props is Some)
        &&& self.running_props matches Some(c) ==> c.wf()
    }

    /// Everything but the clients is the same.
    pub open spec fn same_but_clients(self, other: HostTunnel) -> bool {
        &&& self.name == other.name
        &&& self.secret == other.secret
        &&& self.host_addr == other.host_addr
        &&& self.protocol == other.protocol
        &&& self.is_open == other.is_open
    }

    /// Whether the tunnel can be started, and with which key its endpoint is to be bound.
    pub fn start(&self) -> (r: Result<SecretKey, HostError>)
        ensures
            if self.is_open {
                r == Err::<SecretKey, HostError>(HostError::TunnelAlreadyOpen)
            } else {
                r == Ok::<SecretKey, HostError>(self.secret)
            },
    {
        if self.is_open {
            return Err(HostError::TunnelAlreadyOpen);
        }
        Ok(self.secret)
    }

    /// The endpoint of the tunnel has been bound: clients can connect.
    pub fn opened(&mut self)
        ensures
            final(self).wf(),
            final(self).is_open,
            final(self).running_props matches Some(c) && c.tunnel_clients@ == Map::<
                PublicKey,
                ConnectedClient,
            >::empty(),
            final(self).name == old(self).name,
            final(self).secret == old(self).secret,
            final(self).host_addr == old(self).host_addr,
            final(self).protocol == old(self).protocol,
    {
        self.running_props = Some(ConnectedClients { tunnel_clients: Table::new() });
        self.is_open = true;
    }

    /// The endpoint of the tunnel has closed on its own: clients cannot connect any more, all are
    /// gone, and the tunnel can be started again.
    pub fn endpoint_closed(&mut self)
        ensures
            final(self).wf(),
            !final(self).is_open,
            final(self).running_props is None,
            final(self).name == old(self).name,
            final(self).secret == old(self).secret,
            final(self).host_addr == old(self).host_addr,
            final(self).protocol == old(self).protocol,
    {
        self.running_props = None;
        self.is_open = false;
    }

    /// Runs the accept loop by one event. A client that is listed already is turned away.
    pub fn accept(&mut self, event: AcceptEvent) -> (r: AcceptAction)
        requires
            old(self).wf(),
            old(self).is_open,
        ensures
            final(self).wf(),
            final(self).same_but_clients(*old(self)),
            ({
                let before = old(self).running_props->0.tunnel_clients@;
                let after = final(self).running_props->0.tunnel_clients@;
                match event {
                    AcceptEvent::Nothing => r is Next && after == before,
                    AcceptEvent::Failed => r is Next && after == before,
                    AcceptEvent::Connected(peer) => if before.contains_key(peer) {
                        r is Ignore && after == before
                    } else {
                        &&& r == AcceptAction::Serve(peer)
                        &&& after.dom() == before.dom().insert(peer)
                        &&& after.remove(peer) == before.remove(peer)
                        &&& after[peer].local_connections@ == Map::<
                            SocketAddr,
                            LocalClientConnection,
                        >::empty()
                    },
                }
            }),
    {
        match event {
            AcceptEvent::Nothing => AcceptAction::Next,
            AcceptEvent::Failed => AcceptAction::Next,
            AcceptEvent::Connected(peer) => {
                match &mut self.running_props {
                    Some(clients) => {
                        if clients.tunnel_clients.contains_key(peer) {
                            return AcceptAction::Ignore;
                        }
                        let client: ConnectedClient = ConnectedClient {
                            local_connections: Table::new(),
                        };
                        let ghost before = clients.tunnel_clients@;
                        let _ = clients.tunnel_clients.insert(peer, client);
                        assert(clients.tunnel_clients@.remove(peer) =~= before.remove(peer));
                        AcceptAction::Serve(peer)
                    },
                    None => AcceptAction::Next,
                }
            },
        }
    }

    /// A client that is served has opened a stream and told its local address: the connection is
    /// listed under its virtual address, and the backend is to be connected to from there.
    pub fn handle_connection(&mut self, peer: PublicKey, msg: Client2HostControlMsg) -> (r:
        VirtualClient)
        requires
            old(self).wf(),
            old(self).is_open,
            old(self).running_props->0.tunnel_clients@.contains_key(peer),
        ensures
            final(self).wf(),
            final(self).same_but_clients(*old(self)),
            ({
                let before = old(self).running_props->0.tunnel_clients@;
                let after = final(self).running_props->0.tunnel_clients@;
                let Client2HostControlMsg::ConnReq { local_addr } = msg;
                let at = addr::unspecified(local_addr.spec_is_ipv4());
                let connection = LocalClientConnection {
                    client_local_addr: local_addr,
                    client_virtual_addr: at,
                    last_active: 0,
                };
                &&& r == VirtualClient {
                    protocol: old(self).protocol,
                    connection,
                    ipv4: old(self).host_addr.spec_is_ipv4(),
                    connect: old(self).host_addr,
                }
                &&& after.dom() == before.dom()
                &&& after.remove(peer) == before.remove(peer)
                &&& after[peer].local_connections@ == before[peer].local_connections@.insert(
                    at,
                    connection,
                )
            }),
    {
        let local_addr: SocketAddr = match msg {
            Client2HostControlMsg::ConnReq { local_addr } => local_addr,
        };
        let client_virtual_addr: SocketAddr = get_unspecified(local_addr.is_ipv4());
        let connection: LocalClientConnection = LocalClientConnection {
            client_local_addr: local_addr,
            client_virtual_addr,
            last_active: 0,
        };
        if let Some(clients) = &mut self.running_props {
            let ghost before = clients.tunnel_clients@;
            if let Some(client) = clients.tunnel_clients.get_mut(peer) {
                let _ = client.local_connections.insert(client_virtual_addr, connection);
            }
            assert(clients.tunnel_clients@.dom() =~= before.dom());
            assert(clients.tunnel_clients@.remove(peer) =~= before.remove(peer));
            assert(clients.wf());
        }
        VirtualClient {
            protocol: self.protocol,
            connection,
            ipv4: self.host_addr.is_ipv4(),
            connect: self.host_addr,
        }
    }

    /// The connection of a client has ended: the client is not listed any more, and is served when
    /// it connects again.
    pub fn client_gone(&mut self, peer: PublicKey)
        requires
            old(self).wf(),
        ensures
            final(self).wf(),
            final(self).same_but_clients(*old(self)),
            old(self).running_props matches Some(c) ==> final(self).running_props matches Some(d)
                && d.tunnel_clients@ == c.tunnel_clients@.remove(peer),
    {
        if let Some(clients) = &mut self.running_props {
            let _ = clients.tunnel_clients.remove(peer);
        }
    }

    /// Static method to disconnect a remote client connection, which closes all related
    /// streams and sockets.
    ///
    /// # Returns
    /// * `true` if the connection was successfully disconnected
    /// * `false` otherwise.
    pub fn disconnect_local_client_connection(
        connection: &mut ConnectedClient,
        local_connection: &LocalClientConnection,
    ) -> (r: bool)
        requires
            old(connection).wf(),
        ensures
            final(connection).wf(),
            r == old(connection).local_connections@.contains_key(
                local_connection.client_virtual_addr,
            ),
            final(connection).local_connections@ == old(connection).local_connections@.remove(
                local_connection.client_virtual_addr,
            ),
    {
        connection.local_connections.remove(local_connection.client_virtual_addr).is_some()
    }

    /// Stop the tunnel. This disconnects all clients. Says whether there was anything to stop: if so,
    /// the forwarders are to be told and the endpoint is to be closed.
    pub fn stop(&mut self) -> (r: Result<bool, HostError>)
        requires
            old(self).wf(),
        ensures
            r == Ok::<bool, HostError>(old(self).is_open),
            final(self).wf(),
            !final(self).is_open,
            final(self).name == old(self).name,
            final(self).secret == old(self).secret,
            final(self).host_addr == old(self).host_addr,
            final(self).protocol == old(self).protocol,
    {
        if !self.is_open {
            return Ok(false);
        }
        self.running_props = None;
        self.is_open = false;
        Ok(true)
    }

    /// Get the number of connected clients.
    pub fn num_clients(&self) -> (r: usize)
        requires
            self.wf(),
        ensures
            r == match self.running_props {
                Some(c) => c.tunnel_clients@.dom().len(),
                None => 0,
            },
    {
        match &self.running_props {
            Some(c) => c.tunnel_clients.len(),
            None => 0,
        }
    }
}

impl TunnelCommon for HostTunnel {
    open spec fn spec_secret(&self) -> Seq<u8> {
        self.secret@
    }

    open spec fn spec_protocol(&self) -> TunnelProtocol {
        self.protocol
    }

    open spec fn spec_is_running(&self) -> bool {
        self.is_open
    }

    open spec fn spec_name(&self) -> Seq<char> {
        self.name@
    }

    open spec fn spec_num_active_connections(&self) -> nat {
        match self.running_props {
            Some(c) => c.connections(),
            None => 0,
        }
    }

    open spec fn spec_addr(&self) -> SocketAddr {
        self.host_addr
    }

    open spec fn tunnel_wf(&self) -> bool {
        self.wf()
    }

    fn secret(&self) -> (r: [u8; 32]) {
        self.secret.to_bytes()
    }

    fn protocol(&self) -> (r: TunnelProtocol) {
        self.protocol
    }

    fn is_running(&self) -> (r: bool) {
        self.is_open
    }

    fn name(&self) -> (r: String) {
        self.name.clone()
    }

    fn num_active_connections(&self) -> (r: usize) {
        match &self.running_props {
            Some(c) => c.count(),
            None => 0,
        }
    }

    fn addr(&self) -> (r: SocketAddr) {
        self.host_addr
    }
}

} // verus!
