//! Protocols, and datagram sockets that are read and written like streams.

use vstd::prelude::*;

use crate::addr::SocketAddr;
use crate::error::{IoError, IoErrorKind};
use crate::text::str_eq;

verus! {

/// ALPN protocol identifier.
pub const ALPN: &'static str = "lan-tun/0.2.0";

/// The transport protocol of the traffic in a tunnel.
#[derive(Debug, Clone, Copy, PartialEq, Eq, Structural)]
pub enum Protocol {
    Tcp,
    Udp,
}

impl Protocol {
    /// The name of the protocol.
    pub open spec fn display(self) -> Seq<char> {
        match self {
            Protocol::Tcp => "tcp"@,
            Protocol::Udp => "udp"@,
        }
    }

    /// The name of the protocol.
    pub fn to_text(&self) -> (r: &'static str)
        ensures
            r@ == self.display(),
    {
        match self {
            Protocol::Tcp => "tcp",
            Protocol::Udp => "udp",
        }
    }

    /// The protocol that a text names, in lower case.
    pub fn from_str(s: &str) -> (r: Result<Self, String>)
        ensures
            if s@ == "tcp"@ {
                r == Ok::<Protocol, String>(Protocol::Tcp)
            } else if s@ == "udp"@ {
                r == Ok::<Protocol, String>(Protocol::Udp)
            } else {
                r matches Err(m) && m@ == "Unknown protocol: "@ + s@
            },
    {
        if str_eq(s, "tcp") {
            Ok(Protocol::Tcp)
        } else if str_eq(s, "udp") {
            Ok(Protocol::Udp)
        } else {
            Err(String::from_str("Unknown protocol: ").concat(s))
        }
    }
}

/// A handle of a stream or of a datagram socket.
#[derive(Debug)]
pub enum TcpStreamOrUdpSocket<T, U> {
    Tcp(T),
    Udp(U),
}

impl<T, U> TcpStreamOrUdpSocket<T, U> {
    /// A stream.
    pub fn from_tcp(stream: T) -> (r: Self)
        ensures
            r == TcpStreamOrUdpSocket::<T, U>::Tcp(stream),
    {
        TcpStreamOrUdpSocket::Tcp(stream)
    }

    /// A datagram socket.
    pub fn from_udp(socket: U) -> (r: Self)
        ensures
            r == TcpStreamOrUdpSocket::<T, U>::Udp(socket),
    {
        TcpStreamOrUdpSocket::Udp(socket)
    }
}

/// What came of trying the socket.
#[derive(Debug, PartialEq, Eq)]
pub enum PollEvent {
    /// The reader or writer is polled.
    Polled,
    /// The next datagram is from this address.
    Sender(SocketAddr),
    /// A datagram was received.
    Received(Vec<u8>),
    /// So many bytes were sent.
    Sent(usize),
    /// The socket failed, perhaps only because it was not ready.
    Failed(IoError),
    /// The socket was waited for and is not ready.
    NotReady,
    /// The socket was waited for and became ready; what it had is gone.
    Ready,
    /// The socket was waited for, and so many bytes were sent or it failed.
    Waited(Result<usize, IoError>),
}

/// What a reader or writer does with the socket, or what it tells its user.
#[derive(Debug, PartialEq, Eq)]
pub enum PollAction {
    /// Look from whom the next datagram is.
    PeekSender,
    /// Receive a datagram.
    TryReceive,
    /// Send the data, to this address or where the socket is connected.
    TrySend(Option<SocketAddr>),
    /// Wait until the socket can be read.
    WaitReadable,
    /// Wait until the socket can be written to.
    WaitWritable(Option<SocketAddr>),
    /// Nothing yet; ask again at once.
    WakeAndPend,
    /// Nothing yet.
    Pend,
    /// This was read.
    ReadDone(Vec<u8>),
    /// So many bytes were written.
    WriteDone(usize),
    /// It failed.
    Fail(IoError),
}

/// Reads from a shared datagram socket what one client sends.
#[derive(Debug)]
pub struct FilteredUdpReader<S> {
    pub socket: S,
    pub client_addr: SocketAddr,
}

/// Writes to one client on a shared datagram socket.
#[derive(Debug)]
pub struct FilteredUdpWriter<S> {
    pub socket: S,
    pub client_addr: SocketAddr,
}

/// Writes to a connected datagram socket.
#[derive(Debug)]
pub struct UdpWriter<S> {
    pub socket: S,
}

/// Reads from a connected datagram socket.
#[derive(Debug)]
pub struct UdpReader<S> {
    pub socket: S,
}

/// How a reader of datagrams goes on after it has tried the socket: what was received is handed
/// over, a socket that was not ready is waited for, and a failure is passed on. What comes while it
/// waits is not handed over.
pub open spec fn reads_on(event: PollEvent, r: PollAction) -> bool {
    match event {
        PollEvent::Received(data) => r == PollAction::ReadDone(data),
        PollEvent::Failed(e) => if e.kind is WouldBlock {
            r is WaitReadable
        } else {
            r == PollAction::Fail(e)
        },
        PollEvent::Ready => r matches PollAction::ReadDone(v) && v@.len() == 0,
        _ => r is Pend,
    }
}

/// How a writer of datagrams goes on after it has tried the socket.
pub open spec fn writes_on(to: Option<SocketAddr>, event: PollEvent, r: PollAction) -> bool {
    match event {
        PollEvent::Polled => r == PollAction::TrySend(to),
        PollEvent::Sent(n) => r == PollAction::WriteDone(n),
        PollEvent::Failed(e) => if e.kind is WouldBlock {
            r == PollAction::WaitWritable(to)
        } else {
            r == PollAction::Fail(e)
        },
        PollEvent::Waited(Ok(n)) => r == PollAction::WriteDone(n),
        PollEvent::Waited(Err(e)) => r == PollAction::Fail(e),
        _ => r is Pend,
    }
}

fn read_on(event: PollEvent) -> (r: PollAction)
    ensures
        reads_on(event, r),
{
    match event {
        PollEvent::Received(data) => PollAction::ReadDone(data),
        PollEvent::Failed(e) => if e.kind == IoErrorKind::WouldBlock {
            PollAction::WaitReadable
        } else {
            PollAction::Fail(e)
        },
        PollEvent::Ready => PollAction::ReadDone(Vec::new()),
        _ => PollAction::Pend,
    }
}

fn write_on(to: Option<SocketAddr>, event: PollEvent) -> (r: PollAction)
    ensures
        writes_on(to, event, r),
{
    match event {
        PollEvent::Polled => PollAction::TrySend(to),
        PollEvent::Sent(n) => PollAction::WriteDone(n),
        PollEvent::Failed(e) => if e.kind == IoErrorKind::WouldBlock {
            PollAction::WaitWritable(to)
        } else {
            PollAction::Fail(e)
        },
        PollEvent::Waited(Ok(n)) => PollAction::WriteDone(n),
        PollEvent::Waited(Err(e)) => PollAction::Fail(e),
        _ => PollAction::Pend,
    }
}

impl<S> FilteredUdpReader<S> {
    /// Reads by one event. Only a datagram of this reader's client is taken from the socket; for any
    /// other the reader steps aside, so that the right one can take it.
    pub fn poll_read(&self, event: PollEvent) -> (r: PollAction)
        ensures
            match event {
                PollEvent::Polled => r is PeekSender,
                PollEvent::Sender(from) => if from == self.client_addr {
                    r is TryReceive
                } else {
                    r is WakeAndPend
                },
                _ => reads_on(event, r),
            },
    {
        match event {
            PollEvent::Polled => PollAction::PeekSender,
            PollEvent::Sender(from) => if from == self.client_addr {
                PollAction::TryReceive
            } else {
                PollAction::WakeAndPend
            },
            other => read_on(other),
        }
    }
}

impl<S> UdpReader<S> {
    /// Reads by one event.
    pub fn poll_read(&self, event: PollEvent) -> (r: PollAction)
        ensures
            match event {
                PollEvent::Polled => r is TryReceive,
                _ => reads_on(event, r),
            },
    {
        match event {
            PollEvent::Polled => PollAction::TryReceive,
            other => read_on(other),
        }
    }

    /// A reader cannot be written to.
    pub fn poll_write(&self) -> (r: PollAction)
        ensures
            r matches PollAction::Fail(e) && e.kind is Other && e.message@
                == "UdpReader does not support write"@,
    {
        PollAction::Fail(
            IoError {
                kind: IoErrorKind::Other,
                message: String::from_str("UdpReader does not support write"),
            },
        )
    }
}

impl<S> FilteredUdpWriter<S> {
    /// Writes by one event, to this writer's client.
    pub fn poll_write(&self, event: PollEvent) -> (r: PollAction)
        ensures
            writes_on(Some(self.client_addr), event, r),
    {
        write_on(Some(self.client_addr), event)
    }
}

impl<S> UdpWriter<S> {
    /// Writes by one event, where the socket is connected.
    pub fn poll_write(&self, event: PollEvent) -> (r: PollAction)
        ensures
            writes_on(None, event, r),
    {
        write_on(None, event)
    }
}

} // verus!
