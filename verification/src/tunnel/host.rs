//! The host side of a tunnel: accepts peers and forwards their streams to a local service.

use vstd::prelude::*;

use crate::addr;
use crate::addr::{any_addr, SocketAddr, SocketAddrV4};
use crate::error::Error;
use crate::key;
use crate::key::{PublicKey, SecretKey};
use crate::protocol::{ConnReq, Hello, PROTOCOL_VERSION};
use crate::table;
use crate::table::Table;
use crate::tunnel::{RelayMode, TunnelProtocol};

verus! {

/// Max time a newly-accepted peer has to send its Hello frame.
pub const HELLO_TIMEOUT_SECS: u64 = 10;

/// The code with which a peer of another version is turned away.
pub const VERSION_MISMATCH_CODE: u32 = 1;

/// The words with which a peer of another version is turned away.
pub const VERSION_MISMATCH_WORDS: &'static str = "version mismatch";

/// How a host tunnel is to be set up.
#[derive(Debug)]
pub struct HostTunnelBuilder {
    pub secret: Option<SecretKey>,
    pub forward_to: Option<SocketAddr>,
    pub protocol: Option<TunnelProtocol>,
    pub name: String,
    pub relay: RelayMode,
    pub discovery: bool,
    pub bind_v4: Option<SocketAddrV4>,
}

impl Default for HostTunnelBuilder {
    fn default() -> (r: Self)
        ensures
            r.secret is None,
            r.forward_to is None,
            r.protocol is None,
            r.name@ == "host"@,
            r.relay == RelayMode::Default,
            r.discovery,
            r.bind_v4 is None,
    {
        HostTunnelBuilder {
            secret: None,
            forward_to: None,
            protocol: None,
            name: String::from_str("host"),
            relay: RelayMode::Default,
            discovery: true,
            bind_v4: None,
        }
    }
}

/// The endpoint that a host tunnel needs. It speaks this library's protocol only.
#[derive(Debug)]
pub struct HostEndpoint {
    pub secret: SecretKey,
    pub relay: RelayMode,
    pub discovery: bool,
    pub bind_v4: Option<SocketAddrV4>,
}

impl HostTunnelBuilder {
    /// The secret key that the tunnel is known by.
    pub fn secret(self, s: SecretKey) -> (r: Self)
        ensures
            r == (HostTunnelBuilder { secret: Some(s), ..self }),
    {
        HostTunnelBuilder { secret: Some(s), ..self }
    }

    /// The local service.
    pub fn forward_to(self, addr: SocketAddr) -> (r: Self)
        ensures
            r == (HostTunnelBuilder { forward_to: Some(addr), ..self }),
    {
        HostTunnelBuilder { forward_to: Some(addr), ..self }
    }

    /// The protocol of the traffic.
    pub fn protocol(self, p: TunnelProtocol) -> (r: Self)
        ensures
            r == (HostTunnelBuilder { protocol: Some(p), ..self }),
    {
        HostTunnelBuilder { protocol: Some(p), ..self }
    }

    /// The name of the tunnel.
    pub fn name(self, n: String) -> (r: Self)
        ensures
            r == (HostTunnelBuilder { name: n, ..self }),
    {
        HostTunnelBuilder { name: n, ..self }
    }

    /// The relays to use.
    pub fn relay(self, relay: RelayMode) -> (r: Self)
        ensures
            r == (HostTunnelBuilder { relay, ..self }),
    {
        HostTunnelBuilder { relay, ..self }
    }

    /// Disable n0 discovery.
    pub fn discovery(self, enable: bool) -> (r: Self)
        ensures
            r == (HostTunnelBuilder { discovery: enable, ..self }),
    {
        HostTunnelBuilder { discovery: enable, ..self }
    }

    /// Bind the iroh endpoint's IPv4 socket to a specific address.
    pub fn bind_addr_v4(self, addr: SocketAddrV4) -> (r: Self)
        ensures
            r == (HostTunnelBuilder { bind_v4: Some(addr), ..self }),
    {
        HostTunnelBuilder { bind_v4: Some(addr), ..self }
    }

    /// Checks that nothing is missing, and gives the tunnel with the endpoint to bind for it.
    pub fn start(self) -> (r: Result<(HostTunnel, HostEndpoint), Error>)
        ensures
            r is Ok <==> self.secret is Some && self.forward_to is Some && self.protocol is Some,
            r matches Ok((t, e)) ==> {
                &&& t.name == self.name
                &&& t.public_key@ == key::public_key_of(self.secret->0@)
                &&& t.public_key.wf()
                &&& t.forward_to == self.forward_to->0
                &&& t.protocol == self.protocol->0
                &&& t.wf()
                &&& t.peers@ == Map::<PublicKey, PeerEntry>::empty()
                &&& t.next_id == 0
                &&& !t.cancelled
                &&& !t.dead
                &&& e.secret == self.secret->0
                &&& e.relay == self.relay
                &&& e.discovery == self.discovery
                &&& e.bind_v4 == self.bind_v4
            },
            r matches Err(e) ==> e.is_protocol(
                if self.secret is None {
                    "secret required"@
                } else if self.forward_to is None {
                    "forward_to required"@
                } else {
                    "protocol required"@
                },
            ),
    {
        let secret: SecretKey = match self.secret {
            Some(s) => s,
            None => return Err(Error::protocol("secret required")),
        };
        let forward_to: SocketAddr = match self.forward_to {
            Some(a) => a,
            None => return Err(Error::protocol("forward_to required")),
        };
        let protocol: TunnelProtocol = match self.protocol {
            Some(p) => p,
            None => return Err(Error::protocol("protocol required")),
        };
        let tunnel: HostTunnel = HostTunnel {
            name: self.name,
            public_key: secret.public(),
            forward_to,
            protocol,
            peers: Table::new(),
            next_id: 0,
            cancelled: false,
            dead: false,
        };
        let endpoint: HostEndpoint = HostEndpoint {
            secret,
            relay: self.relay,
            discovery: self.discovery,
            bind_v4: self.bind_v4,
        };
        Ok((tunnel, endpoint))
    }
}

/// A peer that is being served.
#[derive(Debug, Clone, Copy, PartialEq, Eq, Structural)]
pub struct PeerEntry {
    /// The session that registered the peer.
    pub id: u64,
    /// Number of currently-open forwarded streams from this peer.
    pub active: usize,
}

/// A host tunnel listens for incoming peer connections and forwards each tunneled
/// stream to a fixed local address.
#[derive(Debug)]
pub struct HostTunnel {
    pub name: String,
    pub public_key: PublicKey,
    pub forward_to: SocketAddr,
    pub protocol: TunnelProtocol,
    pub peers: Table<PublicKey, PeerEntry>,
    /// The number of the next session.
    pub next_id: u64,
    /// Whether the tunnel is being shut down.
    pub cancelled: bool,
    /// Whether the accept loop has exited without a shutdown.
    pub dead: bool,
}

/// What happens to the accept loop.
#[derive(Debug, Clone, Copy, PartialEq, Eq, Structural)]
pub enum AcceptEvent {
    /// The tunnel is being shut down.
    Cancelled,
    /// The endpoint has closed.
    EndpointClosed,
    /// A peer is connecting.
    Incoming,
}

/// What the accept loop does.
#[derive(Debug, Clone, Copy, PartialEq, Eq, Structural)]
pub enum AcceptAction {
    /// The loop is over.
    Stop,
    /// Serve the peer, concurrently with all others.
    Serve,
}

/// Where the session of a peer stands.
#[derive(Debug, Clone, Copy, PartialEq, Eq, Structural)]
pub enum PeerPhase {
    /// Its greeting is awaited.
    Greeting,
    /// It is registered, by the session of this number, and its streams are forwarded.
    Serving { id: u64 },
    /// Over.
    Ended,
}

/// The session of a peer.
#[derive(Debug, Clone, Copy)]
pub struct PeerSession {
    pub key: PublicKey,
    pub phase: PeerPhase,
}

/// What happens to the session of a peer.
#[derive(Debug, PartialEq, Eq)]
pub enum PeerEvent {
    /// The greeting did not come in time.
    HelloTimedOut,
    /// The greeting could not be read.
    HelloFailed(Error),
    /// The greeting came.
    HelloReceived(Hello),
    /// The tunnel is being shut down.
    Cancelled,
    /// The connection is gone.
    Closed,
    /// No stream can be accepted, or its request cannot be read.
    StreamFailed(Error),
    /// A stream was opened with this request.
    Requested(ConnReq),
}

/// What the session of a peer does.
#[derive(Debug, PartialEq, Eq)]
pub enum PeerAction {
    /// The session is over.
    End,
    /// The session is over because of a failure.
    Fail(Error),
    /// Close the connection with the words for a version mismatch; the session is over.
    Reject(Error),
    /// Go on and accept streams.
    Serve,
    /// Forward the stream to the backend, concurrently with all others.
    Forward(BackendPlan),
}

/// How the backend is reached for one stream.
#[derive(Debug, Clone, Copy, PartialEq, Eq, Structural)]
pub struct BackendPlan {
    pub protocol: TunnelProtocol,
    /// The client that the stream belongs to.
    pub client: SocketAddr,
    /// The address to bind first.
    pub bind: SocketAddr,
    /// The address to connect to.
    pub connect: SocketAddr,
}

/// The sum over all peers of their open streams.
pub open spec fn open_streams(peers: Map<PublicKey, PeerEntry>) -> nat {
    table::map_total(peers, |p: PeerEntry| p.active as nat)
}

/// The peers after one of them registers.
pub open spec fn registered(
    peers: Map<PublicKey, PeerEntry>,
    key: PublicKey,
    id: u64,
) -> Map<PublicKey, PeerEntry> {
    peers.insert(key, PeerEntry { id, active: 0 })
}

/// The peers after the session `id` of a peer ends: the peer goes only if that session is the one
/// that registered it last.
pub open spec fn unregistered(
    peers: Map<PublicKey, PeerEntry>,
    key: PublicKey,
    id: u64,
) -> Map<PublicKey, PeerEntry> {
    if peers.contains_key(key) && peers[key].id == id {
        peers.remove(key)
    } else {
        peers
    }
}

/// The peers after a stream of a session has been opened (`up`) or closed. A session that has been
/// replaced is not counted any more.
pub open spec fn counted(
    peers: Map<PublicKey, PeerEntry>,
    key: PublicKey,
    id: u64,
    up: bool,
) -> Map<PublicKey, PeerEntry> {
    if peers.contains_key(key) && peers[key].id == id {
        let n = peers[key].active;
        peers.insert(
            key,
            PeerEntry {
                id,
                active: if up {
                    n.wrapping_add(1)
                } else {
                    n.wrapping_sub(1)
                },
            },
        )
    } else {
        peers
    }
}

/// A change to the peers of a host tunnel.
pub ghost enum PeerChange {
    Registered(PublicKey, u64),
    Ended(PublicKey, u64),
    StreamOpened(PublicKey, u64),
    StreamClosed(PublicKey, u64),
}

/// The peers after a change.
pub open spec fn changed(
    peers: Map<PublicKey, PeerEntry>,
    change: PeerChange,
) -> Map<PublicKey, PeerEntry> {
    match change {
        PeerChange::Registered(key, id) => registered(peers, key, id),
        PeerChange::Ended(key, id) => unregistered(peers, key, id),
        PeerChange::StreamOpened(key, id) => counted(peers, key, id, true),
        PeerChange::StreamClosed(key, id) => counted(peers, key, id, false),
    }
}

/// The peers of a tunnel after a history of changes.
pub open spec fn peers_after(history: Seq<PeerChange>) -> Map<PublicKey, PeerEntry>
    decreases history.len(),
{
    if history.len() == 0 {
        Map::empty()
    } else {
        changed(peers_after(history.drop_last()), history.last())
    }
}

/// Whether the session `id` is the last that registered `key`, at place `i`, and has not ended
/// since.
pub open spec fn current_since(history: Seq<PeerChange>, key: PublicKey, id: u64, i: int) -> bool {
    &&& 0 <= i < history.len()
    &&& history[i] == PeerChange::Registered(key, id)
    &&& forall|j: int|
        i < j < history.len() ==> #[trigger] history[j] != PeerChange::Ended(key, id)
            && !(history[j] matches PeerChange::Registered(k, n) && k == key)
}

/// A peer is listed, under the session that registered it last, exactly as long as that session has
/// not ended: no slot is kept after a disconnect, and the end of an old session never takes away
/// the slot of a newer one.
pub proof fn lemma_listed_while_current(history: Seq<PeerChange>, key: PublicKey, id: u64)
    ensures
        peers_after(history).contains_key(key) && peers_after(history)[key].id == id <==> exists|
            i: int,
        | #[trigger]
            current_since(history, key, id, i),
    decreases history.len(),
{
    if history.len() > 0 {
        let before = history.drop_last();
        let last = history.last();
        let n = before.len() as int;
        lemma_listed_while_current(before, key, id);
        assert forall|i: int| 0 <= i < n implies #[trigger] history[i] == before[i] by {}
        let was = peers_after(before).contains_key(key) && peers_after(before)[key].id == id;
        let is = peers_after(history).contains_key(key) && peers_after(history)[key].id == id;
        let ends = last == PeerChange::Ended(key, id);
        let replaced = last matches PeerChange::Registered(k, m) && k == key;
        if last == PeerChange::Registered(key, id) {
            assert(current_since(history, key, id, n));
        } else if was && !ends && !replaced {
            let i = choose|i: int| current_since(before, key, id, i);
            assert(current_since(history, key, id, i));
        }
        if exists|i: int| #[trigger] current_since(history, key, id, i) {
            let i = choose|i: int| #[trigger] current_since(history, key, id, i);
            if i < n {
                assert(history[n] == last);
                assert(current_since(before, key, id, i));
                assert(was && !ends && !replaced);
            }
        }
    }
}

/// A peer that connects and disconnects leaves the list as if it had never been there.
pub proof fn lemma_slot_is_freed(peers: Map<PublicKey, PeerEntry>, key: PublicKey, id: u64)
    ensures
        unregistered(registered(peers, key, id), key, id) == peers.remove(key),
{
    assert(registered(peers, key, id).remove(key) =~= peers.remove(key));
}

/// When a peer reconnects before its old session has ended, the end of that session changes
/// nothing.
pub proof fn lemma_reconnect_survives(
    peers: Map<PublicKey, PeerEntry>,
    key: PublicKey,
    first: u64,
    second: u64,
)
    requires
        first != second,
    ensures
        ({
            let both = registered(registered(peers, key, first), key, second);
            &&& unregistered(both, key, first) == both
            &&& both.contains_key(key)
        }),
{
}

/// Peers do not disturb each other: what one does changes the entry of no other.
pub proof fn lemma_peers_are_independent(
    peers: Map<PublicKey, PeerEntry>,
    change: PeerChange,
    other: PublicKey,
)
    requires
        match change {
            PeerChange::Registered(key, id) => key != other,
            PeerChange::Ended(key, id) => key != other,
            PeerChange::StreamOpened(key, id) => key != other,
            PeerChange::StreamClosed(key, id) => key != other,
        },
    ensures
        changed(peers, change).contains_key(other) == peers.contains_key(other),
        peers.contains_key(other) ==> changed(peers, change)[other] == peers[other],
{
}

/// A stream that is opened and closed leaves the counts as they were.
pub proof fn lemma_stream_is_uncounted(peers: Map<PublicKey, PeerEntry>, key: PublicKey, id: u64)
    ensures
        counted(counted(peers, key, id, true), key, id, false) == peers,
{
    if peers.contains_key(key) && peers[key].id == id {
        assert(counted(counted(peers, key, id, true), key, id, false) =~= peers);
    }
}

impl HostTunnel {
    /// Every peer is listed once.
    pub open spec fn wf(&self) -> bool {
        self.peers.wf()
    }

    /// Everything but the peers, and the number of the next session, is the same.
    pub open spec fn same_but_peers(self, other: HostTunnel) -> bool {
        &&& self.name == other.name
        &&& self.public_key == other.public_key
        &&& self.forward_to == other.forward_to
        &&& self.protocol == other.protocol
        &&& self.cancelled == other.cancelled
        &&& self.dead == other.dead
    }

    /// A builder with defaults.
    pub fn builder() -> (r: HostTunnelBuilder)
        ensures
            r.secret is None,
            r.forward_to is None,
            r.protocol is None,
            r.name@ == "host"@,
            r.relay == RelayMode::Default,
            r.discovery,
            r.bind_v4 is None,
    {
        HostTunnelBuilder::default()
    }

    /// The name of the tunnel.
    pub fn name(&self) -> (r: &str)
        ensures
            r@ == self.name@,
    {
        self.name.as_str()
    }

    /// The key that the tunnel is known by.
    pub fn public_key(&self) -> (r: PublicKey)
        ensures
            r == self.public_key,
    {
        self.public_key
    }

    /// The local service.
    pub fn forward_to(&self) -> (r: SocketAddr)
        ensures
            r == self.forward_to,
    {
        self.forward_to
    }

    /// The protocol of the traffic.
    pub fn protocol(&self) -> (r: TunnelProtocol)
        ensures
            r == self.protocol,
    {
        self.protocol
    }

    /// How many peers are connected.
    pub fn connected_peers(&self) -> (r: usize)
        requires
            self.wf(),
        ensures
            r == self.peers@.dom().len(),
    {
        self.peers.len()
    }

    /// How many streams of all peers are open.
    pub fn active_connections(&self) -> (r: usize)
        requires
            self.wf(),
            open_streams(self.peers@) <= usize::MAX,
        ensures
            r == open_streams(self.peers@),
    {
        let ghost count = |p: PeerEntry| p.active as nat;
        let ghost mut rest = self.peers@;
        let mut sum: usize = 0;
        let mut i: usize = 0;
        proof {
            self.peers.lemma_keys();
            assert forall|j: int| 0 <= j < self.peers.key_seq().len() implies rest.contains_key(
                #[trigger] self.peers.key_seq()[j],
            ) by {
                assert(self.peers.key_seq().to_set().contains(self.peers.key_seq()[j]));
            }
        }
        let n: usize = self.peers.len();
        while i < n
            invariant
                self.peers.wf(),
                n == self.peers.key_seq().len(),
                self.peers.key_seq().no_duplicates(),
                i <= n,
                count == (|p: PeerEntry| p.active as nat),
                rest.dom().finite(),
                rest.dom().len() == n - i,
                forall|j: int|
                    i <= j < n ==> rest.contains_key(#[trigger] self.peers.key_seq()[j])
                        && rest[self.peers.key_seq()[j]] == self.peers@[self.peers.key_seq()[j]],
                table::map_total(self.peers@, count) == sum + table::map_total(rest, count),
                table::map_total(self.peers@, count) <= usize::MAX,
            decreases n - i,
        {
            let p: &PeerEntry = self.peers.value_at(i);
            proof {
                let k = self.peers.key_seq()[i as int];
                table::lemma_map_total_remove(rest, count, k);
                rest = rest.remove(k);
            }
            sum = sum + p.active;
            i = i + 1;
        }
        sum
    }

    /// Whether the tunnel's accept loop has exited *without* `shutdown()` being called.
    pub fn wait_dead(&self) -> (r: bool)
        ensures
            r == self.dead,
    {
        self.dead
    }

    /// Asks for a shutdown.
    pub fn shutdown(&mut self)
        ensures
            *final(self) == (HostTunnel { cancelled: true, ..*old(self) }),
    {
        self.cancelled = true;
    }

    /// Runs the accept loop by one event. The end of the endpoint is a death unless the tunnel is
    /// being shut down.
    pub fn accept_loop(&mut self, event: AcceptEvent) -> (r: AcceptAction)
        ensures
            r == if event is Incoming {
                AcceptAction::Serve
            } else {
                AcceptAction::Stop
            },
            *final(self) == (HostTunnel {
                dead: old(self).dead || (event is EndpointClosed && !old(self).cancelled),
                ..*old(self)
            }),
    {
        match event {
            AcceptEvent::Cancelled => AcceptAction::Stop,
            AcceptEvent::EndpointClosed => {
                if !self.cancelled {
                    self.dead = true;
                }
                AcceptAction::Stop
            },
            AcceptEvent::Incoming => AcceptAction::Serve,
        }
    }

    fn register(&mut self, key: PublicKey) -> (id: u64)
        requires
            old(self).wf(),
        ensures
            final(self).wf(),
            final(self).same_but_peers(*old(self)),
            id == old(self).next_id,
            final(self).next_id == old(self).next_id.wrapping_add(1),
            final(self).peers@ == registered(old(self).peers@, key, id),
    {
        let id: u64 = self.next_id;
        self.next_id = id.wrapping_add(1);
        let _ = self.peers.insert(key, PeerEntry { id, active: 0 });
        id
    }

    fn unregister(&mut self, key: PublicKey, id: u64)
        requires
            old(self).wf(),
        ensures
            final(self).wf(),
            final(self).same_but_peers(*old(self)),
            final(self).next_id == old(self).next_id,
            final(self).peers@ == unregistered(old(self).peers@, key, id),
    {
        let ours: bool = match self.peers.get(key) {
            Some(p) => p.id == id,
            None => false,
        };
        if ours {
            let _ = self.peers.remove(key);
        }
    }

    fn count(&mut self, key: PublicKey, id: u64, up: bool)
        requires
            old(self).wf(),
        ensures
            final(self).wf(),
            final(self).same_but_peers(*old(self)),
            final(self).next_id == old(self).next_id,
            final(self).peers@ == counted(old(self).peers@, key, id, up),
    {
        let found: Option<usize> = match self.peers.get(key) {
            Some(p) => if p.id == id {
                Some(p.active)
            } else {
                None
            },
            None => None,
        };
        if let Some(n) = found {
            let active: usize = if up {
                n.wrapping_add(1)
            } else {
                n.wrapping_sub(1)
            };
            let _ = self.peers.insert(key, PeerEntry { id, active });
        }
    }

    /// A stream of a peer's session has been opened.
    pub fn stream_started(&mut self, key: PublicKey, id: u64)
        requires
            old(self).wf(),
        ensures
            final(self).wf(),
            final(self).same_but_peers(*old(self)),
            final(self).next_id == old(self).next_id,
            final(self).peers@ == counted(old(self).peers@, key, id, true),
    {
        self.count(key, id, true);
    }

    /// A stream of a peer's session has been closed.
    pub fn stream_finished(&mut self, key: PublicKey, id: u64)
        requires
            old(self).wf(),
        ensures
            final(self).wf(),
            final(self).same_but_peers(*old(self)),
            final(self).next_id == old(self).next_id,
            final(self).peers@ == counted(old(self).peers@, key, id, false),
    {
        self.count(key, id, false);
    }

    /// How the backend is reached for a stream: from any local address of its family.
    pub fn handle_stream(&self, req: ConnReq) -> (r: BackendPlan)
        ensures
            r == (BackendPlan {
                protocol: self.protocol,
                client: req.client_local_addr,
                bind: addr::unspecified(self.forward_to.spec_is_ipv4()),
                connect: self.forward_to,
            }),
    {
        BackendPlan {
            protocol: self.protocol,
            client: req.client_local_addr,
            bind: any_addr(self.forward_to.is_ipv4()),
            connect: self.forward_to,
        }
    }

    /// Runs the session of a peer by one event. A peer that greets in time and in the right version
    /// is registered and served; whatever ends its session frees its slot, unless a newer session of
    /// the same peer has taken it.
    pub fn handle_peer(&mut self, session: &mut PeerSession, event: PeerEvent) -> (r: PeerAction)
        requires
            old(self).wf(),
            old(session).expects(event),
        ensures
            final(self).wf(),
            final(self).same_but_peers(*old(self)),
            final(session).key == old(session).key,
            match event {
                PeerEvent::HelloReceived(hello) if hello.version == PROTOCOL_VERSION => {
                    &&& r is Serve
                    &&& final(session).phase == (PeerPhase::Serving { id: old(self).next_id })
                    &&& final(self).next_id == old(self).next_id.wrapping_add(1)
                    &&& final(self).peers@ == registered(
                        old(self).peers@,
                        old(session).key,
                        old(self).next_id,
                    )
                },
                PeerEvent::Requested(req) => {
                    &&& r matches PeerAction::Forward(plan) && plan.protocol == old(self).protocol
                        && plan.client == req.client_local_addr && plan.connect == old(
                        self,
                    ).forward_to && plan.bind == addr::unspecified(
                        old(self).forward_to.spec_is_ipv4(),
                    )
                    &&& final(session).phase == old(session).phase
                    &&& final(self).next_id == old(self).next_id
                    &&& final(self).peers@ == old(self).peers@
                },
                _ => {
                    &&& r == PeerAction::End || r is Fail || r is Reject
                    &&& final(session).phase is Ended
                    &&& final(self).next_id == old(self).next_id
                    &&& final(self).peers@ == match old(session).phase {
                        PeerPhase::Serving { id } => unregistered(
                            old(self).peers@,
                            old(session).key,
                            id,
                        ),
                        _ => old(self).peers@,
                    }
                },
            },
            match event {
                PeerEvent::HelloTimedOut => r matches PeerAction::Fail(e) && e.is_protocol(
                    "hello timed out"@,
                ),
                PeerEvent::HelloFailed(e) => r == PeerAction::Fail(e),
                PeerEvent::HelloReceived(hello) => hello.version != PROTOCOL_VERSION ==> r
                    == PeerAction::Reject(
                    Error::VersionMismatch { ours: PROTOCOL_VERSION, peer: hello.version },
                ),
                PeerEvent::Cancelled => r is End,
                PeerEvent::Closed => r is End,
                PeerEvent::StreamFailed(e) => r == PeerAction::Fail(e),
                PeerEvent::Requested(req) => true,
            },
    {
        match event {
            PeerEvent::HelloTimedOut => {
                session.phase = PeerPhase::Ended;
                PeerAction::Fail(Error::protocol("hello timed out"))
            },
            PeerEvent::HelloFailed(e) => {
                session.phase = PeerPhase::Ended;
                PeerAction::Fail(e)
            },
            PeerEvent::HelloReceived(hello) => {
                if hello.version != PROTOCOL_VERSION {
                    session.phase = PeerPhase::Ended;
                    return PeerAction::Reject(
                        Error::VersionMismatch { ours: PROTOCOL_VERSION, peer: hello.version },
                    );
                }
                let id: u64 = self.register(session.key);
                session.phase = PeerPhase::Serving { id };
                PeerAction::Serve
            },
            PeerEvent::Cancelled => {
                self.leave(session);
                PeerAction::End
            },
            PeerEvent::Closed => {
                self.leave(session);
                PeerAction::End
            },
            PeerEvent::StreamFailed(e) => {
                self.leave(session);
                PeerAction::Fail(e)
            },
            PeerEvent::Requested(req) => PeerAction::Forward(self.handle_stream(req)),
        }
    }

    fn leave(&mut self, session: &mut PeerSession)
        requires
            old(self).wf(),
        ensures
            final(self).wf(),
            final(self).same_but_peers(*old(self)),
            final(self).next_id == old(self).next_id,
            final(session).key == old(session).key,
            final(session).phase is Ended,
            final(self).peers@ == match old(session).phase {
                PeerPhase::Serving { id } => unregistered(old(self).peers@, old(session).key, id),
                _ => old(self).peers@,
            },
    {
        if let PeerPhase::Serving { id } = session.phase {
            self.unregister(session.key, id);
        }
        session.phase = PeerPhase::Ended;
    }
}

impl PeerSession {
    /// Whether the event can come in this phase.
    pub open spec fn expects(self, event: PeerEvent) -> bool {
        match self.phase {
            PeerPhase::Greeting => event is HelloTimedOut || event is HelloFailed
                || event is HelloReceived,
            PeerPhase::Serving { id } => event is Cancelled || event is Closed
                || event is StreamFailed || event is Requested,
            PeerPhase::Ended => false,
        }
    }

    /// The session of a peer that has connected; `remote` is its key, or why that is not known.
    pub fn accept(remote: Result<PublicKey, String>) -> (r: Result<PeerSession, Error>)
        ensures
            match remote {
                Ok(key) => r matches Ok(s) && s.key == key && s.phase is Greeting,
                Err(why) => r matches Err(e) && e.is_protocol("no remote node id: "@ + why@),
            },
    {
        match remote {
            Ok(key) => Ok(PeerSession { key, phase: PeerPhase::Greeting }),
            Err(why) => Err(
                Error::Protocol(String::from_str("no remote node id: ").concat(why.as_str())),
            ),
        }
    }
}

} // verus!
