//! What host and client tunnels share.

use vstd::prelude::*;

use crate::addr::SocketAddr;
use crate::duration::Duration;
use crate::protocol;
use crate::protocol::{decode_addr, encode_addr};
use crate::tunnel::TunnelProtocol;
use crate::wire;
use crate::wire::{decode_u32, encode_u32, DecodeError, Message, VariantType};
use vstd::slice::slice_subrange;

verus! {

/// How many bytes a forwarder moves at once.
pub const TUNNEL_FORWARDER_BUFFER_SIZE: usize = 1024;

/// After how many seconds without traffic a connection is given up.
pub const CONNECTION_TIMEOUT_SECONDS: u64 = 20;

/// A single local connection of that client. (e.g game client)
#[derive(Debug, Clone, Copy, PartialEq, Eq, Structural)]
pub struct LocalClientConnection {
    /// The local address of the client (inside the client network).
    pub client_local_addr: SocketAddr,
    /// The address of the "virtual client socket" that will be bound on the host machine.
    pub client_virtual_addr: SocketAddr,
    /// When traffic flowed last, in seconds.
    pub last_active: u64,
}

impl LocalClientConnection {
    /// Whether the other one connects the same ends.
    pub open spec fn same_ends(self, other: LocalClientConnection) -> bool {
        &&& self.client_local_addr == other.client_local_addr
        &&& self.client_virtual_addr == other.client_virtual_addr
    }

    /// How long ago traffic flowed last, by the clock `now`; a clock that was set back counts as no
    /// time.
    pub open spec fn idle_secs(self, now: u64) -> nat {
        if now > self.last_active {
            (now - self.last_active) as nat
        } else {
            0
        }
    }

    /// Whether the connection is to be given up.
    pub open spec fn spec_timed_out(self, now: u64) -> bool {
        self.idle_secs(now) >= CONNECTION_TIMEOUT_SECONDS
    }

    /// Whether the connection is to be given up.
    pub fn timed_out(&self, now: u64) -> (r: bool)
        ensures
            r == self.spec_timed_out(now),
    {
        now.saturating_sub(self.last_active) >= CONNECTION_TIMEOUT_SECONDS
    }

    /// How long to wait for traffic before looking again whether the connection is to be given up.
    pub fn time_left(&self, now: u64) -> (r: Duration)
        ensures
            r.nanos == if self.spec_timed_out(now) {
                0
            } else {
                (CONNECTION_TIMEOUT_SECONDS - self.idle_secs(now)) * 1_000_000_000
            },
    {
        let elapsed: u64 = now.saturating_sub(self.last_active);
        if elapsed >= CONNECTION_TIMEOUT_SECONDS {
            Duration::from_secs(0)
        } else {
            Duration::from_secs(CONNECTION_TIMEOUT_SECONDS - elapsed)
        }
    }
}

/// What a client tells the host of a new connection.
#[derive(Debug, Clone, Copy, PartialEq, Eq, Structural)]
pub enum Client2HostControlMsg {
    /// The initial connection request from the client.
    ConnReq {
        /// The local address of the connection (on the client side).
        local_addr: SocketAddr,
    },
}

impl Message for Client2HostControlMsg {
    open spec fn wire(&self) -> Seq<u8> {
        match *self {
            Client2HostControlMsg::ConnReq { local_addr } => wire::varint(0)
                + protocol::addr_wire(local_addr),
        }
    }

    open spec fn read(b: Seq<u8>) -> Result<Self, DecodeError> {
        match wire::varint_read(b, true) {
            Err(e) => Err(e),
            Ok((variant, n)) => if variant != 0 {
                Err(DecodeError::UnexpectedVariant { of: VariantType::Client2HostControlMsg, variant })
            } else {
                match protocol::addr_read(b.skip(n as int)) {
                    Err(e) => Err(e),
                    Ok(local_addr) => Ok(Client2HostControlMsg::ConnReq { local_addr }),
                }
            },
        }
    }

    open spec fn received(&self) -> Self {
        match *self {
            Client2HostControlMsg::ConnReq { local_addr } => Client2HostControlMsg::ConnReq {
                local_addr: protocol::addr_received(local_addr),
            },
        }
    }

    proof fn lemma_read_wire(&self, rest: Seq<u8>) {
        let Client2HostControlMsg::ConnReq { local_addr } = *self;
        let a = protocol::addr_wire(local_addr);
        assert(self.wire() + rest =~= wire::varint(0) + (a + rest));
        wire::lemma_varint_roundtrip(0, true, a + rest);
        protocol::lemma_addr_roundtrip(local_addr, rest);
    }

    fn encode(&self) -> (r: Vec<u8>) {
        match *self {
            Client2HostControlMsg::ConnReq { local_addr } => {
                let mut r: Vec<u8> = encode_u32(0);
                let mut tail: Vec<u8> = encode_addr(local_addr);
                r.append(&mut tail);
                r
            },
        }
    }

    fn decode(b: &[u8]) -> (r: Result<Self, DecodeError>) {
        match decode_u32(b) {
            Err(e) => Err(e),
            Ok((variant, n)) => {
                if variant != 0 {
                    return Err(DecodeError::UnexpectedVariant { of: VariantType::Client2HostControlMsg, variant });
                }
                let rest: &[u8] = slice_subrange(b, n, b.len());
                assert(rest@ =~= b@.skip(n as int));
                match decode_addr(rest) {
                    Err(e) => Err(e),
                    Ok(local_addr) => Ok(Client2HostControlMsg::ConnReq { local_addr }),
                }
            },
        }
    }
}

/// Why no packet was received. Failures of the transport carry its own description.
#[derive(Debug, PartialEq, Eq)]
pub enum ReceivePacketError {
    Io(String),
    Decode(DecodeError),
    Connection(String),
    Read(String),
}

impl ReceivePacketError {
    /// The error in words.
    pub open spec fn display(self) -> Seq<char> {
        match self {
            ReceivePacketError::Io(m) => "io error: "@ + m@,
            ReceivePacketError::Decode(e) => "decode error: "@ + e.display(),
            ReceivePacketError::Connection(m) => "connection error: "@ + m@,
            ReceivePacketError::Read(m) => "read error: "@ + m@,
        }
    }

    /// The error in words.
    pub fn to_text(&self) -> (r: String)
        ensures
            r@ == self.display(),
    {
        match self {
            ReceivePacketError::Io(m) => String::from_str("io error: ").concat(m.as_str()),
            ReceivePacketError::Decode(e) => String::from_str("decode error: ").concat(
                e.to_text().as_str(),
            ),
            ReceivePacketError::Connection(m) => String::from_str("connection error: ").concat(
                m.as_str(),
            ),
            ReceivePacketError::Read(m) => String::from_str("read error: ").concat(m.as_str()),
        }
    }
}

/// The bytes of a packet. A packet is all that is written to its stream.
pub fn send_packet<P: Message>(packet: &P) -> (r: Vec<u8>)
    ensures
        r@ == packet.wire(),
{
    packet.encode()
}

/// The packet that was received, when its stream has been read to the end.
pub fn receive_packet<P: Message>(received: &[u8]) -> (r: Result<P, ReceivePacketError>)
    ensures
        match P::read(received@) {
            Ok(p) => r == Ok::<P, ReceivePacketError>(p),
            Err(e) => r == Err::<P, ReceivePacketError>(ReceivePacketError::Decode(e)),
        },
{
    match P::decode(received) {
        Ok(p) => Ok(p),
        Err(e) => Err(ReceivePacketError::Decode(e)),
    }
}

/// A packet that was sent is received, as far as its fields travel.
pub proof fn lemma_packet_roundtrip<P: Message>(packet: P)
    ensures
        P::read(packet.wire()) == Ok::<P, DecodeError>(packet.received()),
{
    packet.lemma_read_wire(seq![]);
    assert(packet.wire() + Seq::<u8>::empty() =~= packet.wire());
}

/// What every tunnel can tell of itself.
pub trait TunnelCommon {
    /// The tunnel secret.
    spec fn spec_secret(&self) -> Seq<u8>;

    /// The tunnel protocol.
    spec fn spec_protocol(&self) -> TunnelProtocol;

    /// Whether the tunnel is running.
    spec fn spec_is_running(&self) -> bool;

    /// The tunnel name.
    spec fn spec_name(&self) -> Seq<char>;

    /// The amount of active connections.
    spec fn spec_num_active_connections(&self) -> nat;

    /// The tunnel address.
    spec fn spec_addr(&self) -> SocketAddr;

    /// Whether the tunnel is consistent.
    spec fn tunnel_wf(&self) -> bool;

    /// Get the tunnel secret.
    fn secret(&self) -> (r: [u8; 32])
        ensures
            r@ == self.spec_secret(),
    ;

    /// Get the tunnel protocol.
    fn protocol(&self) -> (r: TunnelProtocol)
        ensures
            r == self.spec_protocol(),
    ;

    /// If the tunnel is currently running and connected.
    /// For Host tunnels this means clients can connect.
    /// For Client tunnels this means the tunnel is connected to a host.
    fn is_running(&self) -> (r: bool)
        ensures
            r == self.spec_is_running(),
    ;

    /// Get the tunnel name.
    fn name(&self) -> (r: String)
        ensures
            r@ == self.spec_name(),
    ;

    /// Get the amount of active connections.
    fn num_active_connections(&self) -> (r: usize)
        requires
            self.tunnel_wf(),
            self.spec_num_active_connections() <= usize::MAX,
        ensures
            r == self.spec_num_active_connections(),
    ;

    /// Get the tunnel address.
    fn addr(&self) -> (r: SocketAddr)
        ensures
            r == self.spec_addr(),
    ;
}

} // verus!
