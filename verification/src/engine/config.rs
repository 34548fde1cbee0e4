//! The tunnels that the engine is configured with.

use vstd::prelude::*;

use crate::addr::SocketAddr;
use crate::engine::client;
use crate::engine::client::{ClientError, ClientTunnel, LocalPort};
use crate::engine::host::HostTunnel;
use crate::engine::LanTun;
use crate::key;
use crate::key::{array32, parse_hex, HexError};
use crate::named::Named;
use crate::tunnel::TunnelProtocol;

verus! {

/// All configured tunnels.
#[derive(Debug)]
pub struct LanTunConfig {
    pub host_tunnels: Vec<HostTunnelEntry>,
    pub client_tunnels: Vec<ClientTunnelEntry>,
}

/// A configured host tunnel.
#[derive(Debug)]
pub struct HostTunnelEntry {
    pub name: String,
    pub local: SocketAddr,
    pub protocol: TunnelProtocol,
    pub private_secret: String,
    /// This is the secret that the client will use to connect to the tunnel.
    pub public_secret: String,
    pub enabled: bool,
}

/// A configured client tunnel.
#[derive(Debug)]
pub struct ClientTunnelEntry {
    pub name: String,
    pub local: SocketAddr,
    pub protocol: TunnelProtocol,
    /// The public secret of the host tunnel
    pub secret: String,
    pub enabled: bool,
}

impl Default for LanTunConfig {
    fn default() -> (r: Self)
        ensures
            r.host_tunnels@.len() == 0,
            r.client_tunnels@.len() == 0,
    {
        LanTunConfig { host_tunnels: Vec::new(), client_tunnels: Vec::new() }
    }
}

impl Named for HostTunnelEntry {
    open spec fn spec_name(&self) -> Seq<char> {
        self.name@
    }

    open spec fn spec_enabled(&self) -> bool {
        self.enabled
    }

    open spec fn spec_with_enabled(&self, on: bool) -> Self {
        HostTunnelEntry { enabled: on, ..*self }
    }

    fn entry_name(&self) -> (r: &str) {
        self.name.as_str()
    }

    fn is_enabled(&self) -> (r: bool) {
        self.enabled
    }

    fn put_enabled(&mut self, on: bool) {
        self.enabled = on;
    }
}

impl Named for ClientTunnelEntry {
    open spec fn spec_name(&self) -> Seq<char> {
        self.name@
    }

    open spec fn spec_enabled(&self) -> bool {
        self.enabled
    }

    open spec fn spec_with_enabled(&self, on: bool) -> Self {
        ClientTunnelEntry { enabled: on, ..*self }
    }

    fn entry_name(&self) -> (r: &str) {
        self.name.as_str()
    }

    fn is_enabled(&self) -> (r: bool) {
        self.enabled
    }

    fn put_enabled(&mut self, on: bool) {
        self.enabled = on;
    }
}

/// Why a configuration cannot be used.
#[derive(Debug)]
pub enum StateError {
    /// A secret is not hexadecimal.
    Hex(HexError),
    /// In words.
    Message(String),
    /// A client tunnel cannot be created.
    Client(ClientError),
}

/// The 32 bytes that a secret stands for.
pub open spec fn secret_bytes(secret: Seq<char>) -> Option<Seq<u8>> {
    match key::hex_result(secret) {
        Ok(b) if b.len() == 32 => Some(b),
        _ => None,
    }
}

/// Whether `e` says what is wrong with the form of a secret; `words` are those for a wrong length.
pub open spec fn secret_fault(secret: Seq<char>, words: Seq<char>, e: StateError) -> bool {
    match key::hex_result(secret) {
        Err(why) => e == StateError::Hex(why),
        Ok(b) => e matches StateError::Message(m) && m@ == words && b.len() != 32,
    }
}

/// Whether a client tunnel stands at a place that an earlier one has taken.
pub open spec fn place_taken(s: Seq<ClientTunnelEntry>, i: int) -> bool {
    exists|j: int| 0 <= j < i && (#[trigger] s[j]).local == s[i].local && s[j].protocol == s[i].protocol
}

/// Whether a client tunnel can be created when those before it have been.
pub open spec fn client_usable(s: Seq<ClientTunnelEntry>, i: int) -> bool {
    &&& secret_bytes(s[i].secret@) matches Some(b) && key::is_public_key(b)
    &&& !place_taken(s, i)
}

/// Whether `e` says why a client tunnel cannot be created when those before it have been.
pub open spec fn client_fault(s: Seq<ClientTunnelEntry>, i: int, e: StateError) -> bool {
    match secret_bytes(s[i].secret@) {
        None => secret_fault(s[i].secret@, "Invalid public secret length"@, e),
        Some(b) => if place_taken(s, i) {
            e == StateError::Client(ClientError::TunnelAlreadyExists(s[i].local, s[i].protocol))
        } else {
            match key::public_key_read(b) {
                Ok(_) => false,
                Err(why) => e matches StateError::Client(ClientError::InvalidPublicKey(m)) && m@
                    == why,
            }
        },
    }
}

/// Whether the host tunnels in `m` are those of the entries: one for each secret, made from the last
/// entry with that secret.
pub open spec fn hosts_built(s: Seq<HostTunnelEntry>, m: Map<[u8; 32], HostTunnel>) -> bool {
    &&& forall|k: [u8; 32], i: int|
        0 <= i < s.len() && secret_bytes((#[trigger] s[i]).private_secret@) == Some(k@)
            ==> #[trigger] m.contains_key(k)
    &&& forall|k: [u8; 32]| #[trigger]
        m.contains_key(k) ==> exists|i: int| #[trigger] built_from(s, i, k, m[k])
}

/// Whether a host tunnel is made from an entry, the last with its secret.
pub open spec fn built_from(s: Seq<HostTunnelEntry>, i: int, k: [u8; 32], t: HostTunnel) -> bool {
    &&& 0 <= i < s.len()
    &&& secret_bytes(s[i].private_secret@) == Some(k@)
    &&& t.is_new(s[i].local, s[i].name, k, s[i].protocol)
    &&& forall|j: int|
        i < j < s.len() ==> secret_bytes((#[trigger] s[j]).private_secret@) != Some(k@)
}

/// Whether a client tunnel is made from an entry.
pub open spec fn client_from(e: ClientTunnelEntry, t: ClientTunnel) -> bool {
    &&& t.name == e.name
    &&& secret_bytes(e.secret@) == Some(t.secret@)
    &&& t.secret.wf()
    &&& t.tunnel_addr == e.local
    &&& t.protocol == e.protocol
    &&& !t.is_connected
    &&& t.running_props is None
}

/// The place of an entry.
pub open spec fn place_of(e: ClientTunnelEntry) -> LocalPort {
    client::port_at(e.local, e.protocol)
}

/// Whether the client tunnels in `m` are those of the entries, one for each.
pub open spec fn clients_built(
    s: Seq<ClientTunnelEntry>,
    m: Map<LocalPort, ClientTunnel>,
) -> bool {
    &&& forall|i: int|
        0 <= i < s.len() ==> m.contains_key(#[trigger] place_of(s[i])) && client_from(
            s[i],
            m[place_of(s[i])],
        )
    &&& forall|p: LocalPort| #[trigger]
        m.contains_key(p) ==> exists|i: int| 0 <= i < s.len() && p == #[trigger] place_of(s[i])
}

fn read_secret(secret: &str, words: &str) -> (r: Result<[u8; 32], StateError>)
    ensures
        match r {
            Ok(b) => secret_bytes(secret@) == Some(b@),
            Err(e) => secret_bytes(secret@) is None && secret_fault(secret@, words@, e),
        },
{
    let bytes: Vec<u8> = match parse_hex(secret) {
        Ok(b) => b,
        Err(why) => return Err(StateError::Hex(why)),
    };
    match array32(bytes.as_slice()) {
        Some(arr) => Ok(arr),
        None => Err(StateError::Message(String::from_str(words))),
    }
}

impl LanTunConfig {
    /// Creates all configured tunnels, enabled or not; none of them is started. The first entry that
    /// cannot be used, hosts before clients, is reported.
    pub fn create_state(&self) -> (r: Result<LanTun, StateError>)
        ensures
            match r {
                Ok(l) => {
                    &&& l.wf()
                    &&& hosts_built(self.host_tunnels@, l.host.tunnels@)
                    &&& clients_built(self.client_tunnels@, l.client.tunnels@)
                    &&& forall|i: int|
                        0 <= i < self.host_tunnels@.len() ==> secret_bytes(
                            (#[trigger] self.host_tunnels@[i]).private_secret@,
                        ) is Some
                    &&& forall|i: int|
                        0 <= i < self.client_tunnels@.len() ==> #[trigger] client_usable(
                            self.client_tunnels@,
                            i,
                        )
                },
                Err(e) => {
                    ||| exists|i: int|
                        {
                            &&& 0 <= i < self.host_tunnels@.len()
                            &&& secret_bytes(
                                (#[trigger] self.host_tunnels@[i]).private_secret@,
                            ) is None
                            &&& forall|j: int|
                                0 <= j < i ==> secret_bytes(
                                    (#[trigger] self.host_tunnels@[j]).private_secret@,
                                ) is Some
                            &&& secret_fault(
                                self.host_tunnels@[i].private_secret@,
                                "Invalid private secret length"@,
                                e,
                            )
                        }
                    ||| exists|i: int|
                        {
                            &&& 0 <= i < self.client_tunnels@.len()
                            &&& !#[trigger] client_usable(self.client_tunnels@, i)
                            &&& forall|j: int|
                                0 <= j < self.host_tunnels@.len() ==> secret_bytes(
                                    (#[trigger] self.host_tunnels@[j]).private_secret@,
                                ) is Some
                            &&& forall|j: int|
                                0 <= j < i ==> #[trigger] client_usable(self.client_tunnels@, j)
                            &&& client_fault(self.client_tunnels@, i, e)
                        }
                },
            },
    {
        let mut lantun: LanTun = LanTun::new();
        let mut i: usize = 0;
        let ghost hs = self.host_tunnels@;
        let ghost cs = self.client_tunnels@;
        while i < self.host_tunnels.len()
            invariant
                i <= hs.len(),
                hs == self.host_tunnels@,
                cs == self.client_tunnels@,
                lantun.wf(),
                lantun.client.tunnels@ == Map::<LocalPort, ClientTunnel>::empty(),
                hosts_built(hs.take(i as int), lantun.host.tunnels@),
                forall|j: int|
                    0 <= j < i ==> secret_bytes((#[trigger] hs[j]).private_secret@) is Some,
            decreases hs.len() - i,
        {
            let t: &HostTunnelEntry = &self.host_tunnels[i];
            let secret: [u8; 32] = match read_secret(
                t.private_secret.as_str(),
                "Invalid private secret length",
            ) {
                Ok(s) => s,
                Err(e) => {
                    assert(secret_bytes(hs[i as int].private_secret@) is None);
                    return Err(e);
                },
            };
            let ghost before = lantun.host.tunnels@;
            let _ = lantun.host.create_tunnel(t.local, t.name.clone(), secret, t.protocol);
            proof {
                let s = hs.take(i as int);
                let n = hs.take(i + 1);
                let m = lantun.host.tunnels@;
                assert(n[i as int] == hs[i as int]);
                assert forall|j: int| 0 <= j < i implies #[trigger] n[j] == s[j] by {}
                assert forall|k: [u8; 32]| #[trigger] m.contains_key(k) implies exists|j: int|
                    #[trigger] built_from(n, j, k, m[k]) by {
                    if k == secret {
                        assert(built_from(n, i as int, k, m[k]));
                    } else {
                        assert(before.contains_key(k));
                        let j = choose|j: int| #[trigger] built_from(s, j, k, before[k]);
                        assert(k@ != secret@) by {
                            if k@ == secret@ {
                                assert(k =~= secret);
                            }
                        }
                        assert(built_from(n, j, k, m[k]));
                    }
                }
                assert forall|k: [u8; 32], j: int|
                    0 <= j < n.len() && secret_bytes((#[trigger] n[j]).private_secret@) == Some(
                        k@,
                    ) implies #[trigger] m.contains_key(k) by {
                    if j == i {
                        assert(k =~= secret);
                    } else {
                        assert(s[j] == n[j]);
                        assert(before.contains_key(k));
                    }
                }
            }
            i = i + 1;
        }
        assert(hs.take(i as int) =~= hs);
        let mut k: usize = 0;
        while k < self.client_tunnels.len()
            invariant
                k <= cs.len(),
                hs == self.host_tunnels@,
                cs == self.client_tunnels@,
                lantun.wf(),
                hosts_built(hs, lantun.host.tunnels@),
                forall|j: int|
                    0 <= j < hs.len() ==> secret_bytes((#[trigger] hs[j]).private_secret@) is Some,
                clients_built(cs.take(k as int), lantun.client.tunnels@),
                forall|j: int| 0 <= j < k ==> #[trigger] client_usable(cs, j),
            decreases cs.len() - k,
        {
            let t: &ClientTunnelEntry = &self.client_tunnels[k];
            let ghost s = cs.take(k as int);
            let ghost before = lantun.client.tunnels@;
            proof {
                assert(before.contains_key(place_of(*t)) <==> place_taken(cs, k as int)) by {
                    if before.contains_key(place_of(*t)) {
                        let j = choose|j: int|
                            0 <= j < s.len() && place_of(*t) == #[trigger] place_of(s[j]);
                        assert(cs[j] == s[j]);
                    }
                    if place_taken(cs, k as int) {
                        let j = choose|j: int|
                            0 <= j < k && (#[trigger] cs[j]).local == cs[k as int].local
                                && cs[j].protocol == cs[k as int].protocol;
                        assert(s[j] == cs[j]);
                        assert(before.contains_key(place_of(s[j])));
                    }
                }
            }
            let secret: [u8; 32] = match read_secret(
                t.secret.as_str(),
                "Invalid public secret length",
            ) {
                Ok(s) => s,
                Err(e) => {
                    assert(!client_usable(cs, k as int));
                    return Err(e);
                },
            };
            match lantun.client.create_tunnel(t.local, t.name.clone(), secret, t.protocol) {
                Ok(_) => {},
                Err(e) => {
                    assert(!client_usable(cs, k as int));
                    return Err(StateError::Client(e));
                },
            }
            proof {
                let n = cs.take(k + 1);
                let m = lantun.client.tunnels@;
                assert(n[k as int] == cs[k as int]);
                assert(client_usable(cs, k as int));
                assert forall|j: int| 0 <= j < n.len() implies m.contains_key(
                    #[trigger] place_of(n[j]),
                ) && client_from(n[j], m[place_of(n[j])]) by {
                    if j < k {
                        assert(n[j] == s[j]);
                        assert(n[j] == cs[j]);
                        assert(before.contains_key(place_of(s[j])));
                    }
                }
                assert forall|p: LocalPort| #[trigger] m.contains_key(p) implies exists|j: int|
                    0 <= j < n.len() && p == #[trigger] place_of(n[j]) by {
                    if p == place_of(*t) {
                        assert(p == place_of(n[k as int]));
                    } else {
                        assert(before.contains_key(p));
                        let j = choose|j: int| 0 <= j < s.len() && p == #[trigger] place_of(s[j]);
                        assert(n[j] == s[j]);
                    }
                }
            }
            k = k + 1;
        }
        assert(cs.take(k as int) =~= cs);
        Ok(lantun)
    }
}

} // verus!
