//! Tunnels that the user is connected to.

use vstd::prelude::*;

use crate::addr;
use crate::addr::SocketAddr;
use crate::engine::common::{
    send_packet, Client2HostControlMsg, LocalClientConnection, TunnelCommon,
};
use crate::engine::get_unspecified;
use crate::key;
use crate::key::PublicKey;
use crate::table::{Key, Table};
use crate::tunnel::TunnelProtocol;
use crate::wire::Message;

verus! {

/// What can go wrong with a client tunnel. Failures of the transport carry its own description.
#[derive(Debug, PartialEq, Eq)]
pub enum ClientError {
    FailedToCreateEndpoint(String),
    IoError(String),
    WriteError(String),
    ReadError(String),
    TunnelAlreadyExists(SocketAddr, TunnelProtocol),
    /// The secret is not a public key, for this reason.
    InvalidPublicKey(String),
    FailedToConnect(String),
    FailedToAcceptStream(String),
    ConnectionError(String),
    AlreadyConnected,
    NotConnected,
}

impl ClientError {
    /// The error in words.
    pub open spec fn display(self) -> Seq<char> {
        match self {
            ClientError::FailedToCreateEndpoint(m) => "Failed to create endpoint: "@ + m@,
            ClientError::IoError(m) => "IO error: "@ + m@,
            ClientError::WriteError(m) => "Write error: "@ + m@,
            ClientError::ReadError(m) => "Read error: "@ + m@,
            ClientError::TunnelAlreadyExists(a, p) => "Tunnel with local address "@ + a.display()
                + "/"@ + p.display() + " already exists"@,
            ClientError::InvalidPublicKey(m) => "Invalid public key: "@ + m@,
            ClientError::FailedToConnect(m) => "Failed to connect: "@ + m@,
            ClientError::FailedToAcceptStream(m) => "Failed to accept stream: "@ + m@,
            ClientError::ConnectionError(m) => "Connection error: "@ + m@,
            ClientError::AlreadyConnected => "Already connected to tunnel"@,
            ClientError::NotConnected => "Not connected to tunnel"@,
        }
    }

    /// The error in words.
    pub fn to_text(&self) -> (r: String)
        ensures
            r@ == self.display(),
    {
        match self {
            ClientError::FailedToCreateEndpoint(m) => String::from_str(
                "Failed to create endpoint: ",
            ).concat(m.as_str()),
            ClientError::IoError(m) => String::from_str("IO error: ").concat(m.as_str()),
            ClientError::WriteError(m) => String::from_str("Write error: ").concat(m.as_str()),
            ClientError::ReadError(m) => String::from_str("Read error: ").concat(m.as_str()),
            ClientError::TunnelAlreadyExists(a, p) => String::from_str(
                "Tunnel with local address ",
            ).concat(a.to_text().as_str()).concat("/").concat(p.to_text()).concat(
                " already exists",
            ),
            ClientError::InvalidPublicKey(m) => String::from_str("Invalid public key: ").concat(
                m.as_str(),
            ),
            ClientError::FailedToConnect(m) => String::from_str("Failed to connect: ").concat(
                m.as_str(),
            ),
            ClientError::FailedToAcceptStream(m) => String::from_str(
                "Failed to accept stream: ",
            ).concat(m.as_str()),
            ClientError::ConnectionError(m) => String::from_str("Connection error: ").concat(
                m.as_str(),
            ),
            ClientError::AlreadyConnected => String::from_str("Already connected to tunnel"),
            ClientError::NotConnected => String::from_str("Not connected to tunnel"),
        }
    }
}

/// Where a client tunnel listens.
#[derive(Debug, Clone, Copy, PartialEq, Eq, Structural, Hash)]
pub struct LocalPort {
    pub addr: SocketAddr,
    pub protocol: TunnelProtocol,
}

impl Key for LocalPort {
    fn same(&self, other: &Self) -> (r: bool) {
        *self == *other
    }
}

/// The place with this address and protocol.
pub open spec fn port_at(addr: SocketAddr, protocol: TunnelProtocol) -> LocalPort {
    LocalPort { addr, protocol }
}

/// The client state.
#[derive(Debug)]
pub struct ClientState {
    /// There should only be one tunnel per local SocketAddr and proto.
    pub tunnels: Table<LocalPort, ClientTunnel>,
}

impl Default for ClientState {
    fn default() -> (r: Self)
        ensures
            r.wf(),
            r.tunnels@ == Map::<LocalPort, ClientTunnel>::empty(),
    {
        Self::new()
    }
}

impl ClientState {
    /// Every local address and protocol has at most one tunnel.
    pub open spec fn wf(&self) -> bool {
        self.tunnels.wf()
    }

    /// Create a new client state.
    pub fn new() -> (r: Self)
        ensures
            r.wf(),
            r.tunnels@ == Map::<LocalPort, ClientTunnel>::empty(),
    {
        ClientState { tunnels: Table::new() }
    }

    /// Get the tunnels.
    pub fn tunnels(&self) -> (r: &Table<LocalPort, ClientTunnel>)
        ensures
            *r == self.tunnels,
    {
        &self.tunnels
    }

    /// Get the tunnels mutable.
    pub fn tunnels_mut(&mut self) -> (r: &mut Table<LocalPort, ClientTunnel>)
        ensures
            *r == old(self).tunnels,
            final(self).tunnels == *final(r),
    {
        &mut self.tunnels
    }

    /// Create a new tunnel. An address that is taken is refused, and so are bytes that are no public
    /// key.
    pub fn create_tunnel(
        &mut self,
        local_addr: SocketAddr,
        name: String,
        secret: [u8; 32],
        protocol: TunnelProtocol,
    ) -> (r: Result<&mut ClientTunnel, ClientError>)
        requires
            old(self).wf(),
        ensures
            final(self).wf(),
            if old(self).tunnels@.contains_key(port_at(local_addr, protocol)) {
                &&& r matches Err(e) && e == ClientError::TunnelAlreadyExists(local_addr, protocol)
                &&& final(self).tunnels@ == old(self).tunnels@
            } else {
                match key::public_key_read(secret@) {
                    Ok(_) => r matches Ok(t) && t.is_new(local_addr, name, secret, protocol)
                        && final(self).tunnels@ == old(self).tunnels@.insert(
                        port_at(local_addr, protocol),
                        *final(t),
                    ),
                    Err(why) => {
                        &&& r matches Err(ClientError::InvalidPublicKey(m)) && m@ == why
                        &&& final(self).tunnels@ == old(self).tunnels@
                    },
                }
            },
    {
        if self.tunnels.contains_key(LocalPort { addr: local_addr, protocol }) {
            return Err(ClientError::TunnelAlreadyExists(local_addr, protocol));
        }
        let host: PublicKey = match PublicKey::from_bytes(&secret) {
            Ok(k) => k,
            Err(why) => return Err(ClientError::InvalidPublicKey(why)),
        };
        let tunnel: ClientTunnel = ClientTunnel {
            name,
            secret: host,
            tunnel_addr: local_addr,
            protocol,
            is_connected: false,
            running_props: None,
        };
        let ghost before = self.tunnels@;
        let at: LocalPort = LocalPort { addr: local_addr, protocol };
        let _ = self.tunnels.insert(at, tunnel);
        match self.tunnels.get_mut(LocalPort { addr: local_addr, protocol }) {
            Some(t) => {
                assert forall|x: ClientTunnel| #[trigger] before.insert(at, tunnel).insert(at, x)
                    == before.insert(at, x) by {
                    assert(before.insert(at, tunnel).insert(at, x) =~= before.insert(at, x));
                }
                Ok(t)
            },
            None => {
                assert(false);
                vstd::pervasive::unreached()
            },
        }
    }

    /// The tunnel at this address.
    pub fn get_tunnel(&self, local_addr: SocketAddr, protocol: TunnelProtocol) -> (r: Option<
        &ClientTunnel,
    >)
        requires
            self.wf(),
        ensures
            r is Some <==> self.tunnels@.contains_key(port_at(local_addr, protocol)),
            r matches Some(t) ==> *t == self.tunnels@[port_at(local_addr, protocol)],
    {
        self.tunnels.get(LocalPort { addr: local_addr, protocol })
    }

    /// The tunnel at this address, mutable.
    pub fn get_tunnel_mut(&mut self, local_addr: SocketAddr, protocol: TunnelProtocol) -> (r:
        Option<&mut ClientTunnel>)
        requires
            old(self).wf(),
        ensures
            final(self).wf(),
            match r {
                Some(t) => {
                    &&& old(self).tunnels@.contains_key(port_at(local_addr, protocol))
                    &&& *t == old(self).tunnels@[port_at(local_addr, protocol)]
                    &&& final(self).tunnels@ == old(self).tunnels@.insert(
                        port_at(local_addr, protocol),
                        *final(t),
                    )
                },
                None => {
                    &&& !old(self).tunnels@.contains_key(port_at(local_addr, protocol))
                    &&& final(self).tunnels@ == old(self).tunnels@
                },
            },
    {
        self.tunnels.get_mut(LocalPort { addr: local_addr, protocol })
    }
}

/// A client tunnel represents the other end of the host tunnel.
#[derive(Debug)]
pub struct ClientTunnel {
    /// The name of the tunnel.
    pub name: String,
    /// The secret of the tunnel this client is connected to.
    /// This value is unique for every existing HostTunnel.
    pub secret: PublicKey,
    /// The local address which the traffic of the host's tunnel will be forwarded to.
    /// e.g if the Host runs a server, this is the address that the client needs to connect to.
    pub tunnel_addr: SocketAddr,
    /// The protocol of the tunnel.
    pub protocol: TunnelProtocol,
    /// If the client tunnel is connected to the host tunnel.
    pub is_connected: bool,
    /// Local connections of this client while it runs. (e.g a game client)
    ///
    /// The key is the local address of the application connecting to the tunnel socket.
    pub running_props: Option<Table<SocketAddr, LocalClientConnection>>,
}

/// What happens to the listener of a client tunnel.
#[derive(Debug, Clone, Copy, PartialEq, Eq, Structural)]
pub enum ListenEvent {
    /// The stop signal has changed to this value.
    Stop(bool),
    /// Listening failed.
    Failed,
    /// An application at this address has connected, or has sent a datagram.
    Local(SocketAddr),
}

/// What the listener of a client tunnel does.
#[derive(Debug, PartialEq, Eq)]
pub enum ListenAction {
    /// The listener is over.
    End,
    /// Listen on.
    Next,
    /// Only wait for the stop signal.
    Hold,
    /// Open a stream and send the packet. When that has succeeded the connection is listed, by
    /// `stream_opened`, and forwarded to its end; then listen on.
    Forward { connection: LocalClientConnection, packet: Vec<u8> },
}

/// Whether the listener leaves an application at `from` alone, as its datagrams are forwarded
/// already.
pub open spec fn already_tunneled(
    protocol: TunnelProtocol,
    connections: Map<SocketAddr, LocalClientConnection>,
    from: SocketAddr,
) -> bool {
    protocol is Udp && connections.contains_key(from)
}

/// The connection of an application at `from`.
pub open spec fn new_connection(from: SocketAddr) -> LocalClientConnection {
    LocalClientConnection {
        client_local_addr: from,
        client_virtual_addr: addr::unspecified(true),
        last_active: 0,
    }
}

impl ClientTunnel {
    /// A tunnel with these properties that has not been connected.
    pub open spec fn is_new(
        self,
        local_addr: SocketAddr,
        name: String,
        secret: [u8; 32],
        protocol: TunnelProtocol,
    ) -> bool {
        &&& self.name == name
        &&& self.secret@ == secret@
        &&& self.secret.wf()
        &&& self.tunnel_addr == local_addr
        &&& self.protocol == protocol
        &&& !self.is_connected
        &&& self.running_props is None
    }

    /// A connected tunnel has a list of connections, each address once.
    pub open spec fn wf(&self) -> bool {
        &&& self.is_connected == (self.running_props is Some)
        &&& self.running_props matches Some(c) ==> c.wf()
    }

    /// Everything but the connections is the same.
    pub open spec fn same_but_connections(self, other: ClientTunnel) -> bool {
        &&& self.name == other.name
        &&& self.secret == other.secret
        &&& self.tunnel_addr == other.tunnel_addr
        &&& self.protocol == other.protocol
        &&& self.is_connected == other.is_connected
    }

    /// Get the client address.
    pub fn client_addr(&self) -> (r: SocketAddr)
        ensures
            r == self.tunnel_addr,
    {
        self.tunnel_addr
    }

    /// Whether the tunnel can be connected, and to which host.
    pub fn connect(&self) -> (r: Result<PublicKey, ClientError>)
        ensures
            if self.is_connected {
                r == Err::<PublicKey, ClientError>(ClientError::AlreadyConnected)
            } else {
                r == Ok::<PublicKey, ClientError>(self.secret)
            },
    {
        if self.is_connected {
            return Err(ClientError::AlreadyConnected);
        }
        Ok(self.secret)
    }

    /// The host has been connected to.
    pub fn connected(&mut self)
        ensures
            final(self).wf(),
            final(self).is_connected,
            final(self).running_props matches Some(c) && c@ == Map::<
                SocketAddr,
                LocalClientConnection,
            >::empty(),
            final(self).name == old(self).name,
            final(self).secret == old(self).secret,
            final(self).tunnel_addr == old(self).tunnel_addr,
            final(self).protocol == old(self).protocol,
    {
        self.running_props = Some(Table::new());
        self.is_connected = true;
    }

    /// Runs the listener by one event. A new application gets a connection of its own, which is listed
    /// once its stream is open; a datagram of one that has a connection is left to that connection's
    /// forwarder.
    pub fn listen(&self, event: ListenEvent) -> (r: ListenAction)
        requires
            self.wf(),
            self.is_connected,
        ensures
            match event {
                ListenEvent::Stop(stop) => if stop {
                    r is End
                } else {
                    r is Next
                },
                ListenEvent::Failed => r is Hold,
                ListenEvent::Local(from) => if already_tunneled(
                    self.protocol,
                    self.running_props->0@,
                    from,
                ) {
                    r is Next
                } else {
                    r matches ListenAction::Forward { connection, packet } && connection
                        == new_connection(from) && packet@ == (Client2HostControlMsg::ConnReq {
                        local_addr: from,
                    }).wire()
                },
            },
    {
        match event {
            ListenEvent::Stop(stop) => if stop {
                ListenAction::End
            } else {
                ListenAction::Next
            },
            ListenEvent::Failed => ListenAction::Hold,
            ListenEvent::Local(from) => {
                if let Some(connections) = &self.running_props {
                    if self.protocol == TunnelProtocol::Udp && connections.contains_key(from) {
                        return ListenAction::Next;
                    }
                }
                let connection: LocalClientConnection = LocalClientConnection {
                    client_local_addr: from,
                    client_virtual_addr: get_unspecified(true),
                    last_active: 0,
                };
                let packet: Vec<u8> = send_packet(
                    &Client2HostControlMsg::ConnReq { local_addr: from },
                );
                ListenAction::Forward { connection, packet }
            },
        }
    }

    /// The stream of a connection is open and its packet is sent: the connection is listed.
    pub fn stream_opened(&mut self, connection: LocalClientConnection)
        requires
            old(self).wf(),
            old(self).is_connected,
        ensures
            final(self).wf(),
            final(self).same_but_connections(*old(self)),
            final(self).running_props->0@ == old(self).running_props->0@.insert(
                connection.client_local_addr,
                connection,
            ),
    {
        if let Some(connections) = &mut self.running_props {
            let _ = connections.insert(connection.client_local_addr, connection);
        }
    }

    /// The host has closed the connection, or cannot be reached any more: the tunnel is not connected,
    /// its local connections are gone, and it can be connected again.
    pub fn host_gone(&mut self)
        ensures
            final(self).wf(),
            !final(self).is_connected,
            final(self).running_props is None,
            final(self).name == old(self).name,
            final(self).secret == old(self).secret,
            final(self).tunnel_addr == old(self).tunnel_addr,
            final(self).protocol == old(self).protocol,
    {
        self.running_props = None;
        self.is_connected = false;
    }

    /// Static method to disconnect a local connection, which closes all related
    /// streams and sockets.
    ///
    /// # Returns
    /// * `true` if the connection was successfully disconnected
    /// * `false` otherwise.
    pub fn disconnect_local_connection(
        local_connections: &mut Table<SocketAddr, LocalClientConnection>,
        connection_to_disconnect: &LocalClientConnection,
    ) -> (r: bool)
        requires
            old(local_connections).wf(),
        ensures
            final(local_connections).wf(),
            r == old(local_connections)@.contains_key(connection_to_disconnect.client_local_addr),
            final(local_connections)@ == old(local_connections)@.remove(
                connection_to_disconnect.client_local_addr,
            ),
    {
        local_connections.remove(connection_to_disconnect.client_local_addr).is_some()
    }

    /// Terminates all connections and stops the client tunnel: the forwarders are to be told, and
    /// connection and endpoint are to be closed.
    pub fn disconnect(&mut self) -> (r: Result<(), ClientError>)
        requires
            old(self).wf(),
        ensures
            r == if old(self).is_connected {
                Ok::<(), ClientError>(())
            } else {
                Err::<(), ClientError>(ClientError::NotConnected)
            },
            final(self).wf(),
            !final(self).is_connected,
            final(self).name == old(self).name,
            final(self).secret == old(self).secret,
            final(self).tunnel_addr == old(self).tunnel_addr,
            final(self).protocol == old(self).protocol,
    {
        if !self.is_connected {
            return Err(ClientError::NotConnected);
        }
        self.running_props = None;
        self.is_connected = false;
        Ok(())
    }
}

impl TunnelCommon for ClientTunnel {
    open spec fn spec_secret(&self) -> Seq<u8> {
        self.secret@
    }

    open spec fn spec_protocol(&self) -> TunnelProtocol {
        self.protocol
    }

    open spec fn spec_is_running(&self) -> bool {
        self.is_connected
    }

    open spec fn spec_name(&self) -> Seq<char> {
        self.name@
    }

    open spec fn spec_num_active_connections(&self) -> nat {
        match self.running_props {
            Some(c) => c@.dom().len(),
            None => 0,
        }
    }

    open spec fn spec_addr(&self) -> SocketAddr {
        self.tunnel_addr
    }

    open spec fn tunnel_wf(&self) -> bool {
        self.wf()
    }

    fn secret(&self) -> (r: [u8; 32]) {
        *self.secret.as_bytes()
    }

    fn protocol(&self) -> (r: TunnelProtocol) {
        self.protocol
    }

    fn is_running(&self) -> (r: bool) {
        self.is_connected
    }

    fn name(&self) -> (r: String) {
        self.name.clone()
    }

    fn num_active_connections(&self) -> (r: usize) {
        match &self.running_props {
            Some(c) => c.len(),
            None => 0,
        }
    }

    fn addr(&self) -> (r: SocketAddr) {
        self.tunnel_addr
    }
}

} // verus!
