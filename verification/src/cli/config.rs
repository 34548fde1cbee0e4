//! The tunnels that are configured.

use vstd::prelude::*;

use crate::addr::SocketAddr;
use crate::key;
use crate::key::{array32, hex_encode, parse_hex, SecretKey};
use crate::named;
use crate::named::{contains_name, Named};
use crate::tunnel::TunnelProtocol;

verus! {

/// All configured tunnels.
#[derive(Debug)]
pub struct Config {
    pub host_tunnels: Vec<HostEntry>,
    pub client_tunnels: Vec<ClientEntry>,
}

/// A configured host tunnel.
#[derive(Debug)]
pub struct HostEntry {
    pub name: String,
    pub local: SocketAddr,
    pub protocol: TunnelProtocol,
    /// Hex-encoded 32-byte secret key. Kept private on the host machine.
    pub secret_key: String,
    pub enabled: bool,
}

/// A configured client tunnel.
#[derive(Debug)]
pub struct ClientEntry {
    pub name: String,
    pub local: SocketAddr,
    pub protocol: TunnelProtocol,
    /// Hex-encoded public key of the host tunnel this client connects to.
    pub host_key: String,
    pub enabled: bool,
}

impl Default for Config {
    fn default() -> (r: Self)
        ensures
            r.host_tunnels@.len() == 0,
            r.client_tunnels@.len() == 0,
    {
        Config { host_tunnels: Vec::new(), client_tunnels: Vec::new() }
    }
}

impl Named for HostEntry {
    open spec fn spec_name(&self) -> Seq<char> {
        self.name@
    }

    open spec fn spec_enabled(&self) -> bool {
        self.enabled
    }

    open spec fn spec_with_enabled(&self, on: bool) -> Self {
        HostEntry { enabled: on, ..*self }
    }

    fn entry_name(&self) -> (r: &str) {
        self.name.as_str()
    }

    fn is_enabled(&self) -> (r: bool) {
        self.enabled
    }

    fn put_enabled(&mut self, on: bool) {
        self.enabled = on;
    }
}

impl Named for ClientEntry {
    open spec fn spec_name(&self) -> Seq<char> {
        self.name@
    }

    open spec fn spec_enabled(&self) -> bool {
        self.enabled
    }

    open spec fn spec_with_enabled(&self, on: bool) -> Self {
        ClientEntry { enabled: on, ..*self }
    }

    fn entry_name(&self) -> (r: &str) {
        self.name.as_str()
    }

    fn is_enabled(&self) -> (r: bool) {
        self.enabled
    }

    fn put_enabled(&mut self, on: bool) {
        self.enabled = on;
    }
}

impl HostEntry {
    /// The public key of the tunnel in hexadecimal, or a note that its secret key is none.
    pub open spec fn spec_public_key_hex(self) -> Seq<char> {
        match key::hex_result(self.secret_key@) {
            Ok(b) if b.len() == 32 => key::hex_text(key::public_key_of(b)),
            _ => "<invalid>"@,
        }
    }

    /// The public key of the tunnel in hexadecimal, or a note that its secret key is none.
    pub fn public_key_hex(&self) -> (r: String)
        ensures
            r@ == self.spec_public_key_hex(),
    {
        if let Ok(b) = parse_hex(self.secret_key.as_str()) {
            if let Some(arr) = array32(b.as_slice()) {
                return hex_encode(SecretKey::from_bytes(&arr).public().as_bytes());
            }
        }
        String::from_str("<invalid>")
    }
}

/// The test for host tunnels that forward this protocol to this address.
pub open spec fn host_placed(local: SocketAddr, protocol: TunnelProtocol) -> spec_fn(
    HostEntry,
) -> bool {
    |t: HostEntry| t.local == local && t.protocol == protocol
}

/// The test for client tunnels that bind this address for this protocol.
pub open spec fn client_placed(local: SocketAddr, protocol: TunnelProtocol) -> spec_fn(
    ClientEntry,
) -> bool {
    |t: ClientEntry| t.local == local && t.protocol == protocol
}

impl Config {
    /// How many host tunnels forward this protocol to this address.
    pub open spec fn hosts_at(self, local: SocketAddr, protocol: TunnelProtocol) -> nat {
        self.host_tunnels@.filter(host_placed(local, protocol)).len()
    }

    /// How many client tunnels bind this address for this protocol.
    pub open spec fn clients_at(self, local: SocketAddr, protocol: TunnelProtocol) -> nat {
        self.client_tunnels@.filter(client_placed(local, protocol)).len()
    }

    /// Whether no two host tunnels, and no two client tunnels, share address and protocol.
    pub open spec fn unique_places(self) -> bool {
        &&& forall|local: SocketAddr, protocol: TunnelProtocol| #[trigger]
            self.hosts_at(local, protocol) <= 1
        &&& forall|local: SocketAddr, protocol: TunnelProtocol| #[trigger]
            self.clients_at(local, protocol) <= 1
    }

    /// How many tunnels are called `name`.
    pub open spec fn count(self, name: Seq<char>) -> nat {
        named::name_count(self.host_tunnels@, name) + named::name_count(self.client_tunnels@, name)
    }

    /// Whether no two tunnels share a name.
    pub open spec fn unique_names(self) -> bool {
        forall|name: Seq<char>| #[trigger] self.count(name) <= 1
    }

    /// Whether some tunnel is called `name`.
    pub open spec fn has_name(self, name: Seq<char>) -> bool {
        named::has_name(self.host_tunnels@, name) || named::has_name(self.client_tunnels@, name)
    }

    /// A name is in use where a tunnel of either list has it.
    pub proof fn lemma_has_name(self, name: Seq<char>)
        ensures
            self.has_name(name) <==> {
                ||| exists|i: int|
                    0 <= i < self.host_tunnels@.len() && (#[trigger] self.host_tunnels@[i]).name@
                        == name
                ||| exists|i: int|
                    0 <= i < self.client_tunnels@.len() && (#[trigger] self.client_tunnels@[i]).name@
                        == name
            },
    {
        if exists|i: int|
            0 <= i < self.host_tunnels@.len() && (#[trigger] self.host_tunnels@[i]).name@ == name {
            let i = choose|i: int|
                0 <= i < self.host_tunnels@.len() && (#[trigger] self.host_tunnels@[i]).name@
                    == name;
            assert(self.host_tunnels@[i].spec_name() == name);
        }
        if exists|i: int|
            0 <= i < self.client_tunnels@.len() && (#[trigger] self.client_tunnels@[i]).name@
                == name {
            let i = choose|i: int|
                0 <= i < self.client_tunnels@.len() && (#[trigger] self.client_tunnels@[i]).name@
                    == name;
            assert(self.client_tunnels@[i].spec_name() == name);
        }
    }

    /// Whether some tunnel is called `name`.
    pub fn name_taken(&self, name: &str) -> (r: bool)
        ensures
            r == self.has_name(name@),
    {
        contains_name(&self.host_tunnels, name) || contains_name(&self.client_tunnels, name)
    }
}

} // verus!
