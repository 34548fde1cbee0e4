//! Configured tunnels.

use vstd::prelude::*;

use crate::addr::SocketAddr;
use crate::key::{PublicKey, SecretKey};
use crate::staged::common::Protocol;

verus! {

/// All configured tunnels.
#[derive(Debug)]
pub struct LantunConfig {
    pub host_tunnels: Vec<HostTunnelConfig>,
    pub client_tunnels: Vec<ClientTunnelConfig>,
}

/// A configured host tunnel.
#[derive(Debug)]
pub struct HostTunnelConfig {
    pub name: Option<String>,
    pub secret: SecretKey,
    /// The Address that will be opened to the internet
    pub local_addr: SocketAddr,
    pub proto: Protocol,
    pub enabled: bool,
}

/// A configured client tunnel.
#[derive(Debug)]
pub struct ClientTunnelConfig {
    pub name: Option<String>,
    /// The hosts public key
    pub host_public: PublicKey,
    /// The address to bind the remote service to
    pub local_addr: SocketAddr,
    pub proto: Protocol,
    pub enabled: bool,
}

impl Default for LantunConfig {
    fn default() -> (r: Self)
        ensures
            r.host_tunnels@.len() == 0,
            r.client_tunnels@.len() == 0,
    {
        LantunConfig { host_tunnels: Vec::new(), client_tunnels: Vec::new() }
    }
}

/// A copy of an optional name.
pub(crate) fn copy_name(name: &Option<String>) -> (r: Option<String>)
    ensures
        r == *name,
{
    match name {
        Some(n) => Some(n.clone()),
        None => None,
    }
}

} // verus!
