//! Forwarding one connection in both directions until it ends or falls silent.

use vstd::prelude::*;

use crate::addr::SocketAddr;
use crate::engine::client::ClientTunnel;
use crate::engine::common::{LocalClientConnection, CONNECTION_TIMEOUT_SECONDS};
use crate::engine::host::{ConnectedClient, HostTunnel};
use crate::table::Table;

verus! {

/// One direction of a forwarder, by where it reads.
#[derive(Debug, Clone, Copy, PartialEq, Eq, Structural)]
pub enum Side {
    /// From the tunnel to the local socket.
    Tunnel,
    /// From the local socket to the tunnel.
    Local,
}

/// How one direction of a forwarder is doing.
#[derive(Debug, Clone, Copy, PartialEq, Eq, Structural)]
pub enum Half {
    /// It reads.
    Running,
    /// Reading failed: it waits for the stop signal or the timeout.
    Deaf,
    /// It has ended.
    Ended,
    /// It could not write, and is gone.
    Died,
}

/// A forwarder of one connection.
#[derive(Debug, Clone, Copy, PartialEq, Eq, Structural)]
pub struct Forwarder {
    pub connection: LocalClientConnection,
    pub from_tunnel: Half,
    pub from_local: Half,
}

/// What happens to one direction of a forwarder.
#[derive(Debug, PartialEq, Eq)]
pub enum PumpEvent {
    /// The stop signal has changed to this value.
    Stop(bool),
    /// Data has been read; none at the end of the stream.
    Read(Option<Vec<u8>>),
    /// Reading failed.
    ReadFailed,
    /// The next datagram on a shared socket is from this address.
    Peeked(SocketAddr),
    /// The datagram that was announced was not there.
    Missed,
    /// The time to wait for traffic is over.
    Slept,
    /// What was read could not be written.
    WriteFailed,
}

/// What one direction of a forwarder does.
#[derive(Debug, PartialEq, Eq)]
pub enum PumpAction {
    /// This direction is over.
    End,
    /// Read again, for as long as the connection has left.
    Again,
    /// Do not read; wait on.
    Hold,
    /// Take the datagram that was announced.
    Receive,
    /// Write this to the other side, then read again. On a shared socket it goes to the
    /// `destination` of the forwarder.
    Write(Vec<u8>),
}

/// The list with a connection as it is now: its entry there, if it has one, shows its last traffic.
/// The entry of another connection that has taken its key is left alone.
pub open spec fn shown(
    list: Map<SocketAddr, LocalClientConnection>,
    key: SocketAddr,
    connection: LocalClientConnection,
) -> Map<SocketAddr, LocalClientConnection> {
    if list.contains_key(key) && list[key].same_ends(connection) {
        list.insert(key, connection)
    } else {
        list
    }
}

/// The list after a forwarder has gone from `before` to `after`: its connection is shown as it is
/// until it is over, and then taken off.
pub open spec fn listed_after(
    list: Map<SocketAddr, LocalClientConnection>,
    key: SocketAddr,
    before: Forwarder,
    after: Forwarder,
) -> Map<SocketAddr, LocalClientConnection> {
    if before.spec_is_over() {
        list
    } else if after.spec_is_over() {
        list.remove(key)
    } else {
        shown(list, key, after.connection)
    }
}

fn show(
    list: &mut Table<SocketAddr, LocalClientConnection>,
    key: SocketAddr,
    connection: LocalClientConnection,
)
    requires
        old(list).wf(),
    ensures
        final(list).wf(),
        final(list)@ == shown(old(list)@, key, connection),
{
    let listed: bool = match list.get(key) {
        Some(c) => c.client_local_addr == connection.client_local_addr && c.client_virtual_addr
            == connection.client_virtual_addr,
        None => false,
    };
    if listed {
        let _ = list.insert(key, connection);
    }
}

impl Forwarder {
    /// A forwarder that starts at the time `now`.
    pub fn new(connection: LocalClientConnection, now: u64) -> (r: Self)
        ensures
            r.connection == (LocalClientConnection { last_active: now, ..connection }),
            r.from_tunnel is Running,
            r.from_local is Running,
            !r.spec_is_over(),
    {
        Forwarder {
            connection: LocalClientConnection { last_active: now, ..connection },
            from_tunnel: Half::Running,
            from_local: Half::Running,
        }
    }

    /// Starts forwarding on the host at the time `now`, which shows in the client's list.
    pub fn start_on_host(
        connection: LocalClientConnection,
        client: &mut ConnectedClient,
        now: u64,
    ) -> (r: Self)
        requires
            old(client).wf(),
        ensures
            r.connection == (LocalClientConnection { last_active: now, ..connection }),
            r.from_tunnel is Running,
            r.from_local is Running,
            final(client).wf(),
            final(client).local_connections@ == shown(
                old(client).local_connections@,
                connection.client_virtual_addr,
                r.connection,
            ),
    {
        let r: Forwarder = Forwarder::new(connection, now);
        show(&mut client.local_connections, connection.client_virtual_addr, r.connection);
        r
    }

    /// Starts forwarding on the client at the time `now`, which shows in the tunnel's list.
    pub fn start_on_client(
        connection: LocalClientConnection,
        connections: &mut Table<SocketAddr, LocalClientConnection>,
        now: u64,
    ) -> (r: Self)
        requires
            old(connections).wf(),
        ensures
            r.connection == (LocalClientConnection { last_active: now, ..connection }),
            r.from_tunnel is Running,
            r.from_local is Running,
            final(connections).wf(),
            final(connections)@ == shown(
                old(connections)@,
                connection.client_local_addr,
                r.connection,
            ),
    {
        let r: Forwarder = Forwarder::new(connection, now);
        show(connections, connection.client_local_addr, r.connection);
        r
    }

    /// Where data from the tunnel goes on a socket that all applications share: to the application
    /// that the connection belongs to.
    pub fn destination(&self) -> (r: SocketAddr)
        ensures
            r == self.connection.client_local_addr,
    {
        self.connection.client_local_addr
    }

    /// How a direction is doing.
    pub open spec fn half(self, side: Side) -> Half {
        match side {
            Side::Tunnel => self.from_tunnel,
            Side::Local => self.from_local,
        }
    }

    /// The forwarder with one direction doing otherwise.
    pub open spec fn with_half(self, side: Side, half: Half) -> Forwarder {
        match side {
            Side::Tunnel => Forwarder { from_tunnel: half, ..self },
            Side::Local => Forwarder { from_local: half, ..self },
        }
    }

    /// The forwarder after traffic at the time `now`.
    pub open spec fn touched(self, now: u64) -> Forwarder {
        Forwarder {
            connection: LocalClientConnection { last_active: now, ..self.connection },
            ..self
        }
    }

    /// Whether the connection is over: both directions have ended, or one could not write.
    pub open spec fn spec_is_over(self) -> bool {
        ||| self.from_tunnel is Died
        ||| self.from_local is Died
        ||| self.from_tunnel is Ended && self.from_local is Ended
    }

    /// Whether the connection is over.
    pub fn is_over(&self) -> (r: bool)
        ensures
            r == self.spec_is_over(),
    {
        self.from_tunnel == Half::Died || self.from_local == Half::Died || (self.from_tunnel
            == Half::Ended && self.from_local == Half::Ended)
    }

    /// Whether the event can come to this direction. Only the local side of a forwarder on a
    /// `shared` socket is told of datagrams before it takes them.
    pub open spec fn expects(self, side: Side, event: PumpEvent, shared: bool) -> bool {
        &&& self.half(side) is Running || (self.half(side) is Deaf && (event is Stop
            || event is Slept))
        &&& event is Peeked || event is Missed ==> shared && side is Local
    }

    /// What an event leads to: the forwarder after it, and what its direction does. Traffic in
    /// either direction keeps the connection alive; silence on both ends it.
    pub open spec fn pumps(
        self,
        side: Side,
        event: PumpEvent,
        now: u64,
        after: Forwarder,
        action: PumpAction,
    ) -> bool {
        match event {
            PumpEvent::Stop(stop) => if stop {
                action is End && after == self.with_half(side, Half::Ended)
            } else {
                action is Again && after == self.with_half(side, Half::Running)
            },
            PumpEvent::Read(Some(data)) if data@.len() > 0 => {
                &&& action == PumpAction::Write(data)
                &&& after == self.touched(now).with_half(side, Half::Running)
            },
            PumpEvent::Read(_) => action is End && after == self.with_half(side, Half::Ended),
            PumpEvent::ReadFailed => action is Hold && after == self.with_half(side, Half::Deaf),
            PumpEvent::Peeked(from) => after == self && if from
                == self.connection.client_local_addr {
                action is Receive
            } else {
                action is Again
            },
            PumpEvent::Missed => action is Again && after == self,
            PumpEvent::Slept => if self.connection.spec_timed_out(now) {
                action is End && after == self.with_half(side, Half::Ended)
            } else {
                action is Again && after == self.with_half(side, Half::Running)
            },
            PumpEvent::WriteFailed => action is End && after == self.with_half(side, Half::Died),
        }
    }

    fn set_half(&mut self, side: Side, half: Half)
        ensures
            *final(self) == old(self).with_half(side, half),
    {
        match side {
            Side::Tunnel => {
                self.from_tunnel = half;
            },
            Side::Local => {
                self.from_local = half;
            },
        }
    }

    fn pump(&mut self, side: Side, event: PumpEvent, now: u64) -> (r: PumpAction)
        requires
            old(self).half(side) is Running || old(self).half(side) is Deaf,
            event is Peeked || event is Missed ==> old(self).half(side) is Running,
        ensures
            old(self).pumps(side, event, now, *final(self), r),
    {
        match event {
            PumpEvent::Stop(stop) => {
                if stop {
                    self.set_half(side, Half::Ended);
                    PumpAction::End
                } else {
                    self.set_half(side, Half::Running);
                    PumpAction::Again
                }
            },
            PumpEvent::Read(Some(data)) => {
                if data.len() == 0 {
                    self.set_half(side, Half::Ended);
                    return PumpAction::End;
                }
                self.connection.last_active = now;
                self.set_half(side, Half::Running);
                PumpAction::Write(data)
            },
            PumpEvent::Read(None) => {
                self.set_half(side, Half::Ended);
                PumpAction::End
            },
            PumpEvent::ReadFailed => {
                self.set_half(side, Half::Deaf);
                PumpAction::Hold
            },
            PumpEvent::Peeked(from) => {
                if from == self.connection.client_local_addr {
                    PumpAction::Receive
                } else {
                    PumpAction::Again
                }
            },
            PumpEvent::Missed => PumpAction::Again,
            PumpEvent::Slept => {
                if self.connection.timed_out(now) {
                    self.set_half(side, Half::Ended);
                    PumpAction::End
                } else {
                    self.set_half(side, Half::Running);
                    PumpAction::Again
                }
            },
            PumpEvent::WriteFailed => {
                self.set_half(side, Half::Died);
                PumpAction::End
            },
        }
    }

    fn pump_host(&mut self, client: &mut ConnectedClient, side: Side, event: PumpEvent, now: u64) -> (
    r: PumpAction)
        requires
            old(self).expects(side, event, false),
            old(client).wf(),
        ensures
            old(self).pumps(side, event, now, *final(self), r),
            final(client).wf(),
            final(client).local_connections@ == listed_after(
                old(client).local_connections@,
                old(self).connection.client_virtual_addr,
                *old(self),
                *final(self),
            ),
    {
        let before: bool = self.is_over();
        let r: PumpAction = self.pump(side, event, now);
        let connection: LocalClientConnection = self.connection;
        if !before {
            if self.is_over() {
                let _ = HostTunnel::disconnect_local_client_connection(client, &connection);
            } else {
                show(&mut client.local_connections, connection.client_virtual_addr, connection);
            }
        }
        r
    }

    fn pump_client(
        &mut self,
        connections: &mut Table<SocketAddr, LocalClientConnection>,
        side: Side,
        event: PumpEvent,
        now: u64,
    ) -> (r: PumpAction)
        requires
            old(self).expects(side, event, true),
            old(connections).wf(),
        ensures
            old(self).pumps(side, event, now, *final(self), r),
            final(connections).wf(),
            final(connections)@ == listed_after(
                old(connections)@,
                old(self).connection.client_local_addr,
                *old(self),
                *final(self),
            ),
    {
        let before: bool = self.is_over();
        let r: PumpAction = self.pump(side, event, now);
        let connection: LocalClientConnection = self.connection;
        if !before {
            if self.is_over() {
                let _ = ClientTunnel::disconnect_local_connection(connections, &connection);
            } else {
                show(connections, connection.client_local_addr, connection);
            }
        }
        r
    }

    /// A connection is not given up before it has been silent for the whole timeout, and when it is
    /// looked at after the time it had left, without traffic in between, it is given up.
    pub proof fn lemma_silence_ends(self, side: Side, now: u64, later: u64, early: u64)
        requires
            later >= now,
            later - now >= CONNECTION_TIMEOUT_SECONDS - self.connection.idle_secs(now),
            early < self.connection.last_active + CONNECTION_TIMEOUT_SECONDS,
        ensures
            self.connection.last_active <= now ==> self.connection.spec_timed_out(later),
            !self.connection.spec_timed_out(early),
            forall|after: Forwarder, action: PumpAction| #[trigger]
                self.pumps(side, PumpEvent::Slept, early, after, action) ==> action is Again,
    {
    }

    /// Traffic in either direction keeps the other alive too.
    pub proof fn lemma_traffic_keeps_alive(
        self,
        side: Side,
        data: Vec<u8>,
        now: u64,
        after: Forwarder,
        action: PumpAction,
        later: u64,
    )
        requires
            data@.len() > 0,
            self.pumps(side, PumpEvent::Read(Some(data)), now, after, action),
            later < now + CONNECTION_TIMEOUT_SECONDS,
        ensures
            action == PumpAction::Write(data),
            !after.connection.spec_timed_out(later),
    {
    }

    /// Traffic shows in the list: the connection's entry there has the time of it, and the list still
    /// has the same connections.
    pub proof fn lemma_traffic_shows(
        self,
        side: Side,
        data: Vec<u8>,
        now: u64,
        after: Forwarder,
        action: PumpAction,
        list: Map<SocketAddr, LocalClientConnection>,
        key: SocketAddr,
    )
        requires
            !self.spec_is_over(),
            self.half(side) is Running,
            data@.len() > 0,
            self.pumps(side, PumpEvent::Read(Some(data)), now, after, action),
            list.contains_key(key),
            list[key].same_ends(self.connection),
        ensures
            listed_after(list, key, self, after)[key] == (LocalClientConnection {
                last_active: now,
                ..self.connection
            }),
            listed_after(list, key, self, after).dom() == list.dom(),
    {
        assert(listed_after(list, key, self, after).dom() =~= list.dom());
    }

    /// The stop signal ends both directions at once, and with them the connection.
    pub proof fn lemma_stop_ends(self, now: u64, mid: Forwarder, last: Forwarder, a: PumpAction, b:
        PumpAction)
        requires
            self.pumps(Side::Tunnel, PumpEvent::Stop(true), now, mid, a),
            mid.pumps(Side::Local, PumpEvent::Stop(true), now, last, b),
        ensures
            a is End,
            b is End,
            last.spec_is_over(),
            last.connection == self.connection,
    {
    }
}

/// Forwards a TCP connection on the host, by one event of one direction. Its traffic shows in the
/// client's list; when it is over it is taken off.
pub fn bi_tcp_stream_host(
    forwarder: &mut Forwarder,
    client: &mut ConnectedClient,
    side: Side,
    event: PumpEvent,
    now: u64,
) -> (r: PumpAction)
    requires
        old(forwarder).expects(side, event, false),
        old(client).wf(),
    ensures
        old(forwarder).pumps(side, event, now, *final(forwarder), r),
        final(client).wf(),
        final(client).local_connections@ == listed_after(
            old(client).local_connections@,
            old(forwarder).connection.client_virtual_addr,
            *old(forwarder),
            *final(forwarder),
        ),
{
    forwarder.pump_host(client, side, event, now)
}

/// Forwards a TCP connection on the client, by one event of one direction. Its traffic shows in the
/// tunnel's list; when it is over it is taken off.
pub fn bi_tcp_stream_client(
    forwarder: &mut Forwarder,
    connections: &mut Table<SocketAddr, LocalClientConnection>,
    side: Side,
    event: PumpEvent,
    now: u64,
) -> (r: PumpAction)
    requires
        old(forwarder).expects(side, event, false),
        old(connections).wf(),
    ensures
        old(forwarder).pumps(side, event, now, *final(forwarder), r),
        final(connections).wf(),
        final(connections)@ == listed_after(
            old(connections)@,
            old(forwarder).connection.client_local_addr,
            *old(forwarder),
            *final(forwarder),
        ),
{
    forwarder.pump_client(connections, side, event, now)
}

/// Forwards a UDP session on the host, by one event of one direction. Its traffic shows in the
/// client's list; when it is over it is taken off. The socket is connected to the backend, so everything it receives is for this
/// session.
pub fn bi_udp_host(
    forwarder: &mut Forwarder,
    client: &mut ConnectedClient,
    side: Side,
    event: PumpEvent,
    now: u64,
) -> (r: PumpAction)
    requires
        old(forwarder).expects(side, event, false),
        old(client).wf(),
    ensures
        old(forwarder).pumps(side, event, now, *final(forwarder), r),
        final(client).wf(),
        final(client).local_connections@ == listed_after(
            old(client).local_connections@,
            old(forwarder).connection.client_virtual_addr,
            *old(forwarder),
            *final(forwarder),
        ),
{
    forwarder.pump_host(client, side, event, now)
}

/// Forwards a UDP session on the client, by one event of one direction. Its traffic shows in the
/// tunnel's list; when it is over it is taken off. The socket is shared by all sessions: only datagrams of this session's
/// application are taken from it.
pub fn bi_udp_client(
    forwarder: &mut Forwarder,
    connections: &mut Table<SocketAddr, LocalClientConnection>,
    side: Side,
    event: PumpEvent,
    now: u64,
) -> (r: PumpAction)
    requires
        old(forwarder).expects(side, event, true),
        old(connections).wf(),
    ensures
        old(forwarder).pumps(side, event, now, *final(forwarder), r),
        final(connections).wf(),
        final(connections)@ == listed_after(
            old(connections)@,
            old(forwarder).connection.client_local_addr,
            *old(forwarder),
            *final(forwarder),
        ),
{
    forwarder.pump_client(connections, side, event, now)
}

} // verus!
