//! Client tunnels.

use vstd::prelude::*;

use crate::addr::SocketAddr;
use crate::key::PublicKey;
use crate::staged::common::Protocol;
use crate::staged::config::{copy_name, ClientTunnelConfig};
use crate::table::Table;

verus! {

/// What can go wrong with a client tunnel. Failures of the transport carry its own description.
#[derive(Debug, PartialEq, Eq)]
pub enum ClientError {
    EndpointBindError(String),
    FailedToConnect(String),
    IoError(String),
    ConnectionError(String),
    ReadExactError(String),
}

impl ClientError {
    /// The error in words.
    pub open spec fn display(self) -> Seq<char> {
        match self {
            ClientError::EndpointBindError(m) => "Failed to bind iroh endpoint: "@ + m@,
            ClientError::FailedToConnect(m) => "Failed to connect to host tunnel: "@ + m@,
            ClientError::IoError(m) => "IO error: "@ + m@,
            ClientError::ConnectionError(m) => "Connection error: "@ + m@,
            ClientError::ReadExactError(m) => "Read exact error: "@ + m@,
        }
    }

    /// The error in words.
    pub fn to_text(&self) -> (r: String)
        ensures
            r@ == self.display(),
    {
        match self {
            ClientError::EndpointBindError(m) => String::from_str("Failed to bind iroh endpoint: ").concat(m.as_str()),
            ClientError::FailedToConnect(m) => String::from_str("Failed to connect to host tunnel: ").concat(m.as_str()),
            ClientError::IoError(m) => String::from_str("IO error: ").concat(m.as_str()),
            ClientError::ConnectionError(m) => String::from_str("Connection error: ").concat(m.as_str()),
            ClientError::ReadExactError(m) => String::from_str("Read exact error: ").concat(m.as_str()),
        }
    }
}

/// Marker type for a stopped client tunnel
#[derive(Debug, Clone, Copy, PartialEq, Eq, Structural)]
pub struct Stopped;

/// Marker type for a running client tunnel
#[derive(Debug)]
pub struct Running<H>(pub ActiveProps<H>);

/// Data available on an active client tunnel. `H` is the handle of a forwarder.
#[derive(Debug)]
pub struct ActiveProps<H> {
    /// Maps local client addresses to their underlying connections.
    pub local_connections: Table<SocketAddr, H>,
}

/// A local connection that is being set up.
#[derive(Debug, Clone, Copy, PartialEq, Eq, Structural)]
pub enum LocalConnection {
    /// An application is awaited.
    Listening,
    /// An application at this address is there; a stream of the tunnel is awaited.
    HaveLocal(SocketAddr),
    /// The stream is there; the byte that opens it is awaited.
    HaveStream(SocketAddr),
    /// Done.
    Done,
}

/// What happens to a local connection that is being set up.
#[derive(Debug, PartialEq, Eq)]
pub enum LocalEvent {
    /// An application at this address has connected, or could not.
    Accepted(Option<SocketAddr>),
    /// A stream of the tunnel is there, or could not be accepted.
    StreamAccepted(bool),
    /// The byte that opens the stream has been read, or could not be.
    Opened(Result<(), String>),
}

/// What to do for a local connection that is being set up.
#[derive(Debug, PartialEq, Eq)]
pub enum LocalAction {
    /// Accept an application.
    AcceptLocal,
    /// Accept a stream of the tunnel.
    AcceptStream,
    /// Read the byte that opens the stream.
    ReadOpening,
    /// Forward between the application at this address and the stream.
    Forward(SocketAddr),
    /// Give up.
    Fail(ClientError),
}

impl LocalConnection {
    /// A local connection that is being set up.
    pub fn new(proto: Protocol) -> (r: (Self, LocalAction))
        requires
            proto is Tcp,
        ensures
            r.0 is Listening,
            r.1 is AcceptLocal,
    {
        (LocalConnection::Listening, LocalAction::AcceptLocal)
    }

    /// Whether the event can come now.
    pub open spec fn expects(self, event: LocalEvent) -> bool {
        match self {
            LocalConnection::Listening => event is Accepted,
            LocalConnection::HaveLocal(_) => event is StreamAccepted,
            LocalConnection::HaveStream(_) => event is Opened,
            LocalConnection::Done => false,
        }
    }

    /// Goes on by one event: an application or a stream that fails is given up for the next
    /// application; a stream that is not opened ends it all.
    pub fn step(&mut self, event: LocalEvent) -> (r: LocalAction)
        requires
            old(self).expects(event),
        ensures
            match event {
                LocalEvent::Accepted(Some(from)) => {
                    &&& r is AcceptStream
                    &&& *final(self) == LocalConnection::HaveLocal(from)
                },
                LocalEvent::Accepted(None) => {
                    &&& r is AcceptLocal
                    &&& *final(self) is Listening
                },
                LocalEvent::StreamAccepted(true) => {
                    &&& r is ReadOpening
                    &&& *old(self) matches LocalConnection::HaveLocal(from) && *final(self)
                        == LocalConnection::HaveStream(from)
                },
                LocalEvent::StreamAccepted(false) => {
                    &&& r is AcceptLocal
                    &&& *final(self) is Listening
                },
                LocalEvent::Opened(Ok(())) => {
                    &&& *old(self) matches LocalConnection::HaveStream(from) && r
                        == LocalAction::Forward(from)
                    &&& *final(self) is Done
                },
                LocalEvent::Opened(Err(why)) => {
                    &&& r == LocalAction::Fail(ClientError::ReadExactError(why))
                    &&& *final(self) is Done
                },
            },
    {
        match event {
            LocalEvent::Accepted(Some(from)) => {
                *self = LocalConnection::HaveLocal(from);
                LocalAction::AcceptStream
            },
            LocalEvent::Accepted(None) => LocalAction::AcceptLocal,
            LocalEvent::StreamAccepted(ok) => {
                if ok {
                    if let LocalConnection::HaveLocal(from) = *self {
                        *self = LocalConnection::HaveStream(from);
                    }
                    LocalAction::ReadOpening
                } else {
                    *self = LocalConnection::Listening;
                    LocalAction::AcceptLocal
                }
            },
            LocalEvent::Opened(Ok(())) => {
                let before: LocalConnection = *self;
                *self = LocalConnection::Done;
                match before {
                    LocalConnection::HaveStream(from) => LocalAction::Forward(from),
                    _ => LocalAction::AcceptLocal,
                }
            },
            LocalEvent::Opened(Err(why)) => {
                *self = LocalConnection::Done;
                LocalAction::Fail(ClientError::ReadExactError(why))
            },
        }
    }
}

/// A tunnel to the service of another peer.
#[derive(Debug)]
pub struct ClientTunnel<State = Stopped> {
    pub name: Option<String>,
    /// The public key of the remote host tunnel.
    pub public: PublicKey,
    /// The local address the remote tunnel is exposed on.
    pub addr: SocketAddr,
    pub proto: Protocol,
    pub state: State,
}

impl ClientTunnel<Stopped> {
    /// Get the name of the tunnel
    pub fn name(&self) -> (r: Option<&String>)
        ensures
            match self.name {
                Some(n) => r matches Some(m) && *m == n,
                None => r is None,
            },
    {
        match &self.name {
            Some(n) => Some(n),
            None => None,
        }
    }

    /// Get the public key of the remote host tunnel
    pub fn host_public_key(&self) -> (r: &PublicKey)
        ensures
            *r == self.public,
    {
        &self.public
    }

    /// Get the local address the remote tunnel is exposed on
    pub fn address(&self) -> (r: &SocketAddr)
        ensures
            *r == self.addr,
    {
        &self.addr
    }

    /// Get the protocol of the tunnel
    pub fn protocol(&self) -> (r: &Protocol)
        ensures
            *r == self.proto,
    {
        &self.proto
    }

    /// Create a new stopped tunnel
    pub fn new(name: Option<String>, public: PublicKey, addr: SocketAddr, protocol: Protocol) -> (r:
        Self)
        ensures
            r == (ClientTunnel { name, public, addr, proto: protocol, state: Stopped }),
    {
        ClientTunnel { name, public, addr, proto: protocol, state: Stopped }
    }

    /// The tunnel that a configuration describes.
    pub open spec fn described(config: ClientTunnelConfig) -> ClientTunnel<Stopped> {
        ClientTunnel {
            name: config.name,
            public: config.host_public,
            addr: config.local_addr,
            proto: config.proto,
            state: Stopped,
        }
    }

    /// Creates a client tunnel from config
    pub fn from_config(config: &ClientTunnelConfig) -> (r: Self)
        ensures
            r == Self::described(*config),
    {
        Self::new(copy_name(&config.name), config.host_public, config.local_addr, config.proto)
    }

    /// Start the tunnel: the host has been connected to.
    pub fn start<H>(self) -> (r: ClientTunnel<Running<H>>)
        ensures
            r.name == self.name,
            r.public == self.public,
            r.addr == self.addr,
            r.proto == self.proto,
            r.wf(),
            r.connections() == Map::<SocketAddr, H>::empty(),
    {
        ClientTunnel {
            name: self.name,
            public: self.public,
            addr: self.addr,
            proto: self.proto,
            state: Running(ActiveProps { local_connections: Table::new() }),
        }
    }
}

impl<H> ClientTunnel<Running<H>> {
    /// Every local address has at most one connection.
    pub open spec fn wf(&self) -> bool {
        self.state.0.local_connections.wf()
    }

    /// The connections by local address.
    pub open spec fn connections(self) -> Map<SocketAddr, H> {
        self.state.0.local_connections@
    }

    /// An application has been connected; `handle` is its forwarder. Gives back the forwarder that it
    /// replaces, if there is one.
    pub fn connected(&mut self, local_addr: SocketAddr, handle: H) -> (r: Option<H>)
        requires
            old(self).wf(),
        ensures
            final(self).wf(),
            final(self).name == old(self).name,
            final(self).public == old(self).public,
            final(self).addr == old(self).addr,
            final(self).proto == old(self).proto,
            final(self).connections() == old(self).connections().insert(local_addr, handle),
            r is Some <==> old(self).connections().contains_key(local_addr),
            r matches Some(h) ==> h == old(self).connections()[local_addr],
    {
        self.state.0.local_connections.insert(local_addr, handle)
    }

    /// Stops the client tunnel. Gives back its forwarders, which are all to be stopped.
    pub fn stop(self) -> (r: (ClientTunnel<Stopped>, Table<SocketAddr, H>))
        requires
            self.wf(),
        ensures
            r.0 == (ClientTunnel {
                name: self.name,
                public: self.public,
                addr: self.addr,
                proto: self.proto,
                state: Stopped,
            }),
            r.1.wf(),
            r.1@ == self.connections(),
    {
        let stopped: ClientTunnel<Stopped> = ClientTunnel {
            name: self.name,
            public: self.public,
            addr: self.addr,
            proto: self.proto,
            state: Stopped,
        };
        (stopped, self.state.0.local_connections)
    }
}

} // verus!
